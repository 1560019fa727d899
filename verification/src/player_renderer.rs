//! The bones of the player: how they hang together and what moves them.
use crate::inventory_ui::texts;
use crate::table::Table;
use crate::text;
use vstd::prelude::*;
use vstd::string::*;

verus! {

/// Whose eyes the world is seen with.
#[derive(Debug, Clone, Copy, PartialEq, Eq, Structural)]
pub enum ViewMode {
    FirstPerson,
    ThirdPerson,
}

/// What turns a joint.
#[derive(Debug, Clone, Copy, PartialEq, Eq, Structural)]
pub enum Driver {
    /// The swing of the walk, forth and back, about the x axis.
    Swing,
    /// The forward half of the swing, about the x axis.
    ForwardSwing,
    /// The backward half of the swing, as a positive amount, about the x axis.
    BackwardSwing,
    /// The yaw of the head against the body, about the y axis.
    HeadYaw,
    /// The pitch of the head, about the x axis.
    HeadPitch,
}

/// A turn about a point of the model: the point in tenths of a model unit, what
/// drives the turn, and by how many hundredths of it.
#[derive(Debug, Clone, Copy, PartialEq, Eq, Structural)]
pub struct Joint {
    pub x: i32,
    pub y: i32,
    pub z: i32,
    pub driver: Driver,
    pub percent: i32,
}

/// A bone and its joints, from the root of the model outwards.
#[derive(Debug)]
pub struct Bone {
    pub name: &'static str,
    pub joints: Vec<Joint>,
}

/// A joint at a point with a driver and an amount.
pub open spec fn joint(x: int, y: int, z: int, driver: Driver, percent: int) -> Joint {
    Joint { x: x as i32, y: y as i32, z: z as i32, driver, percent: percent as i32 }
}

/// The amount of a joint that moves only while walking.
pub open spec fn while_walking(walking: bool, percent: int) -> int {
    if walking {
        percent
    } else {
        0
    }
}

fn walk_joint(x: i32, y: i32, z: i32, driver: Driver, percent: i32, walking: bool) -> (r: Joint)
    ensures
        r == joint(x as int, y as int, z as int, driver, while_walking(walking, percent as int)),
{
    Joint {
        x,
        y,
        z,
        driver,
        percent: if walking {
            percent
        } else {
            0
        },
    }
}

/// `b` has the given name and joints.
pub open spec fn is_bone(b: Bone, name: Seq<char>, joints: Seq<Joint>) -> bool {
    b.name@ == name && b.joints@ == joints
}

/// The upper arm of a side: 1 for the left, -1 for the right one.
pub open spec fn upper_arm(side: int, walking: bool) -> Joint {
    joint(50 * side, 220, 0, Driver::Swing, while_walking(walking, 35 * side))
}

/// The elbow of a side.
pub open spec fn elbow(side: int, walking: bool) -> Joint {
    joint(
        50 * side,
        180,
        0,
        if side == 1 {
            Driver::BackwardSwing
        } else {
            Driver::ForwardSwing
        },
        while_walking(walking, -30),
    )
}

/// The hip of a side.
pub open spec fn hip(side: int, walking: bool) -> Joint {
    joint(19 * side, 120, 0, Driver::Swing, while_walking(walking, -45 * side))
}

/// The knee of a side.
pub open spec fn knee(side: int, walking: bool) -> Joint {
    joint(
        19 * side,
        60,
        0,
        if side == 1 {
            Driver::BackwardSwing
        } else {
            Driver::ForwardSwing
        },
        while_walking(walking, 55),
    )
}

/// The bones of the player in the order in which they are drawn.
pub fn player_bones(walking: bool) -> (r: Vec<Bone>)
    ensures
        r@.len() == 10,
        is_bone(r@[0], "body"@, Seq::empty()),
        is_bone(r@[1], "leftThigh"@, seq![hip(1, walking)]),
        is_bone(r@[2], "leftShin"@, seq![hip(1, walking), knee(1, walking)]),
        is_bone(r@[3], "rightThigh"@, seq![hip(-1, walking)]),
        is_bone(r@[4], "rightShin"@, seq![hip(-1, walking), knee(-1, walking)]),
        is_bone(r@[5], "leftArm"@, seq![upper_arm(1, walking)]),
        is_bone(r@[6], "leftForearm"@, seq![upper_arm(1, walking), elbow(1, walking)]),
        is_bone(r@[7], "rightArm"@, seq![upper_arm(-1, walking)]),
        is_bone(r@[8], "rightForearm"@, seq![upper_arm(-1, walking), elbow(-1, walking)]),
        is_bone(
            r@[9],
            "head"@,
            seq![
                joint(0, 240, 0, Driver::HeadYaw, -100),
                joint(0, 240, 0, Driver::HeadPitch, -100),
            ],
        ),
{
    let l_hip: Joint = walk_joint(19, 120, 0, Driver::Swing, -45, walking);
    let r_hip: Joint = walk_joint(-19, 120, 0, Driver::Swing, 45, walking);
    let l_knee: Joint = walk_joint(19, 60, 0, Driver::BackwardSwing, 55, walking);
    let r_knee: Joint = walk_joint(-19, 60, 0, Driver::ForwardSwing, 55, walking);
    let l_arm: Joint = walk_joint(50, 220, 0, Driver::Swing, 35, walking);
    let r_arm: Joint = walk_joint(-50, 220, 0, Driver::Swing, -35, walking);
    let l_elbow: Joint = walk_joint(50, 180, 0, Driver::BackwardSwing, -30, walking);
    let r_elbow: Joint = walk_joint(-50, 180, 0, Driver::ForwardSwing, -30, walking);
    let yaw: Joint = walk_joint(0, 240, 0, Driver::HeadYaw, -100, true);
    let pitch: Joint = walk_joint(0, 240, 0, Driver::HeadPitch, -100, true);
    let mut r: Vec<Bone> = Vec::new();
    r.push(Bone { name: "body", joints: Vec::new() });
    r.push(bone1("leftThigh", l_hip));
    r.push(bone2("leftShin", l_hip, l_knee));
    r.push(bone1("rightThigh", r_hip));
    r.push(bone2("rightShin", r_hip, r_knee));
    r.push(bone1("leftArm", l_arm));
    r.push(bone2("leftForearm", l_arm, l_elbow));
    r.push(bone1("rightArm", r_arm));
    r.push(bone2("rightForearm", r_arm, r_elbow));
    r.push(bone2("head", yaw, pitch));
    r
}

pub(crate) fn bone1(name: &'static str, a: Joint) -> (r: Bone)
    ensures
        is_bone(r, name@, seq![a]),
{
    let mut joints: Vec<Joint> = Vec::new();
    joints.push(a);
    assert(joints@ =~= seq![a]);
    Bone { name, joints }
}

fn bone2(name: &'static str, a: Joint, b: Joint) -> (r: Bone)
    ensures
        is_bone(r, name@, seq![a, b]),
{
    let mut joints: Vec<Joint> = Vec::new();
    joints.push(a);
    joints.push(b);
    assert(joints@ =~= seq![a, b]);
    Bone { name, joints }
}

pub(crate) fn leg_joint(x: i32, y: i32, z: i32, percent: i32, walking: bool) -> (r: Joint)
    ensures
        r == joint(
            x as int,
            y as int,
            z as int,
            Driver::Swing,
            while_walking(walking, percent as int),
        ),
{
    walk_joint(x, y, z, Driver::Swing, percent, walking)
}

/// A bone of the player.
pub open spec fn is_player_bone(name: Seq<char>) -> bool {
    name == "body"@ || name == "leftThigh"@ || name == "leftShin"@ || name == "rightThigh"@ || name
        == "rightShin"@ || name == "leftArm"@ || name == "leftForearm"@ || name == "rightArm"@
        || name == "rightForearm"@ || name == "head"@
}

/// Whether a light of an entity follows one of its bones: only the player's
/// bones are known. Other lights turn with the body.
pub fn light_follows_bone(is_player: bool, bone: &str) -> (r: bool)
    ensures
        r == (is_player && is_player_bone(bone@)),
{
    is_player && (text::same_text(bone, "body") || text::same_text(bone, "leftThigh")
        || text::same_text(bone, "leftShin") || text::same_text(bone, "rightThigh")
        || text::same_text(bone, "rightShin") || text::same_text(bone, "leftArm")
        || text::same_text(bone, "leftForearm") || text::same_text(bone, "rightArm")
        || text::same_text(bone, "rightForearm") || text::same_text(bone, "head"))
}

/// The player: the point about which the head turns, as the bits of three
/// single-precision numbers.
#[derive(Debug, Clone, Copy)]
pub struct PlayerRenderer {
    pub head_pivot: [u32; 3],
}

impl PlayerRenderer {
    /// A player whose head turns about the pivot that the model gives it, or
    /// about `fallback` where the model gives none.
    pub fn new(bone_pivots: &Table<String, [u32; 3]>, fallback: [u32; 3]) -> (r: PlayerRenderer)
        requires
            bone_pivots.wf(),
        ensures
            r.head_pivot == (if bone_pivots@.dom().contains("head"@) {
                bone_pivots@["head"@]
            } else {
                fallback
            }),
    {
        let head: String = "head".to_string();
        match bone_pivots.get(&head) {
            Some(p) => PlayerRenderer { head_pivot: *p },
            None => PlayerRenderer { head_pivot: fallback },
        }
    }
}

/// The bones that are left out: the head, where the world is seen with the
/// player's own eyes.
pub fn skip_bones(view_mode: ViewMode) -> (r: Vec<String>)
    ensures
        texts(r@) == (if view_mode == ViewMode::FirstPerson {
            seq!["head"@]
        } else {
            Seq::empty()
        }),
{
    let mut skip: Vec<String> = Vec::new();
    if view_mode == ViewMode::FirstPerson {
        skip.push("head".to_string());
        assert(texts(skip@) =~= seq!["head"@]);
    } else {
        assert(texts(skip@) =~= Seq::empty());
    }
    skip
}

/// While the player stands still no limb is turned, and while the player walks
/// the limbs of one side swing against those of the other.
pub proof fn law_limbs(walking: bool)
    ensures
        !walking ==> hip(1, walking).percent == 0 && hip(-1, walking).percent == 0 && knee(
            1,
            walking,
        ).percent == 0 && knee(-1, walking).percent == 0 && upper_arm(1, walking).percent == 0
            && upper_arm(-1, walking).percent == 0 && elbow(1, walking).percent == 0 && elbow(
            -1,
            walking,
        ).percent == 0,
        hip(1, walking).percent == -hip(-1, walking).percent,
        upper_arm(1, walking).percent == -upper_arm(-1, walking).percent,
        hip(1, walking).x == -hip(-1, walking).x,
        knee(1, walking).x == -knee(-1, walking).x,
        upper_arm(1, walking).x == -upper_arm(-1, walking).x,
        elbow(1, walking).x == -elbow(-1, walking).x,
{
}

/// Where the limbs of the player are joined, in hundredths of a block, and how
/// far they move with the step, in hundredths of its swing. The left side is 1 and
/// the right side -1. Arms and legs on one side swing against each other; elbows
/// bend forward and knees back, each on the half of the step that is its side's own.
pub proof fn law_joints(side: int)
    requires
        side == 1 || side == -1,
    ensures
        ({
            let h = hip(side, true);
            let k = knee(side, true);
            let a = upper_arm(side, true);
            let e = elbow(side, true);
            let own = if side == 1 { Driver::BackwardSwing } else { Driver::ForwardSwing };
            &&& h.x == 19 * side && h.y == 120 && h.z == 0
            &&& k.x == 19 * side && k.y == 60 && k.z == 0
            &&& a.x == 50 * side && a.y == 220 && a.z == 0
            &&& e.x == 50 * side && e.y == 180 && e.z == 0
            &&& h.driver == Driver::Swing && h.percent == -45 * side
            &&& a.driver == Driver::Swing && a.percent == 35 * side
            &&& k.driver == own && k.percent == 55
            &&& e.driver == own && e.percent == -30
        }),
        forall|walking: bool|
            #![trigger hip(side, walking)]
            hip(side, walking) == (Joint {
                percent: if walking { hip(side, true).percent } else { 0 },
                ..hip(side, true)
            }),
        forall|walking: bool|
            #![trigger knee(side, walking)]
            knee(side, walking) == (Joint {
                percent: if walking { knee(side, true).percent } else { 0 },
                ..knee(side, true)
            }),
        forall|walking: bool|
            #![trigger upper_arm(side, walking)]
            upper_arm(side, walking) == (Joint {
                percent: if walking { upper_arm(side, true).percent } else { 0 },
                ..upper_arm(side, true)
            }),
        forall|walking: bool|
            #![trigger elbow(side, walking)]
            elbow(side, walking) == (Joint {
                percent: if walking { elbow(side, true).percent } else { 0 },
                ..elbow(side, true)
            }),
{
}

/// A joint is at the place given and moves as it is told; what moves with the
/// step stands still without one.
pub proof fn law_joint(x: i32, y: i32, z: i32, d: Driver, percent: i32, b: Bone, name: Seq<char>, j: Seq<Joint>)
    ensures
        ({
            let p = joint(x as int, y as int, z as int, d, percent as int);
            p.x == x && p.y == y && p.z == z && p.driver == d && p.percent == percent
        }),
        while_walking(true, percent as int) == percent,
        while_walking(false, percent as int) == 0,
        is_bone(b, name, j) <==> b.name@ == name && b.joints@ == j,
{
}

/// The bones of the player are these ten.
pub proof fn law_player_bones(name: Seq<char>)
    ensures
        is_player_bone(name) <==> seq![
            "body"@,
            "leftThigh"@,
            "leftShin"@,
            "rightThigh"@,
            "rightShin"@,
            "leftArm"@,
            "leftForearm"@,
            "rightArm"@,
            "rightForearm"@,
            "head"@,
        ].contains(name),
{
    let all = seq![
        "body"@,
        "leftThigh"@,
        "leftShin"@,
        "rightThigh"@,
        "rightShin"@,
        "leftArm"@,
        "leftForearm"@,
        "rightArm"@,
        "rightForearm"@,
        "head"@,
    ];
    assert(all[0] == "body"@ && all[1] == "leftThigh"@ && all[2] == "leftShin"@);
    assert(all[3] == "rightThigh"@ && all[4] == "rightShin"@ && all[5] == "leftArm"@);
    assert(all[6] == "leftForearm"@ && all[7] == "rightArm"@ && all[8] == "rightForearm"@);
    assert(all[9] == "head"@);
}

} // verus!
