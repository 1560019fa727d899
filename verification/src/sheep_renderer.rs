//! The bones of the sheep.
use crate::player_renderer::bone1;
use crate::player_renderer::is_bone;
use crate::player_renderer::joint;
use crate::player_renderer::leg_joint;
use crate::player_renderer::while_walking;
use crate::player_renderer::Bone;
use crate::player_renderer::Driver;
use crate::player_renderer::Joint;
use vstd::prelude::*;
use vstd::string::*;

verus! {

/// How sheep are drawn.
#[derive(Debug, Clone, Copy)]
pub struct SheepRenderer;

/// The joint of a leg of the sheep. Legs that are opposite each other crosswise
/// swing together.
pub open spec fn leg(n: int, walking: bool) -> Joint {
    joint(
        if n % 2 == 0 {
            -30
        } else {
            30
        },
        120,
        if n < 2 {
            70
        } else {
            -50
        },
        Driver::Swing,
        while_walking(
            walking,
            if n == 0 || n == 3 {
                55
            } else {
                -55
            },
        ),
    )
}

impl SheepRenderer {
    /// The bones of a sheep in the order in which they are drawn.
    pub fn bones(walking: bool) -> (r: Vec<Bone>)
        ensures
            r@.len() == 6,
            is_bone(r@[0], "body"@, Seq::empty()),
            is_bone(r@[1], "leg0"@, seq![leg(0, walking)]),
            is_bone(r@[2], "leg1"@, seq![leg(1, walking)]),
            is_bone(r@[3], "leg2"@, seq![leg(2, walking)]),
            is_bone(r@[4], "leg3"@, seq![leg(3, walking)]),
            is_bone(r@[5], "head"@, Seq::empty()),
    {
        let mut r: Vec<Bone> = Vec::new();
        r.push(Bone { name: "body", joints: Vec::new() });
        r.push(bone1("leg0", leg_joint(-30, 120, 70, 55, walking)));
        r.push(bone1("leg1", leg_joint(30, 120, 70, -55, walking)));
        r.push(bone1("leg2", leg_joint(-30, 120, -50, -55, walking)));
        r.push(bone1("leg3", leg_joint(30, 120, -50, 55, walking)));
        r.push(Bone { name: "head", joints: Vec::new() });
        r
    }
}

/// A sheep that stands still keeps its legs straight, and opposite legs swing
/// together when it walks.
pub proof fn law_legs(walking: bool)
    ensures
        !walking ==> forall|n: int| #![trigger leg(n, walking)] leg(n, walking).percent == 0,
        leg(0, walking).percent == leg(3, walking).percent,
        leg(1, walking).percent == leg(2, walking).percent,
        leg(0, walking).percent == -leg(1, walking).percent,
{
}

/// The legs of the sheep: two in front and two behind, one of each pair to
/// either side, all as high; they swing with the step, those across from each other
/// alike.
pub proof fn law_leg_joints(n: int)
    requires
        0 <= n < 4,
    ensures
        ({
            let l = leg(n, true);
            &&& l.x == if n == 0 || n == 2 { -30int } else { 30 }
            &&& l.y == 120
            &&& l.z == if n == 0 || n == 1 { 70int } else { -50 }
            &&& l.driver == Driver::Swing
            &&& l.percent == if n == 0 || n == 3 { 55int } else { -55 }
            &&& leg(n, false) == (Joint { percent: 0, ..l })
        }),
{
}

} // verus!
