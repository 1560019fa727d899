//! The JSON files of the editors.
use crate::inventory_ui::texts;
use crate::text;
use vstd::prelude::*;
use vstd::string::*;

verus! {

/// The list that `serde_json` finds under a name in a JSON text, with the
/// text of each element that is a string; nothing where the text is no JSON or
/// has no list of that name.
pub uninterp spec fn listed_strings(text: Seq<char>, name: Seq<char>) -> Option<
    Seq<Option<Seq<char>>>,
>;

/// The characters of each text that is there.
pub open spec fn opt_texts(v: Seq<Option<String>>) -> Seq<Option<Seq<char>>> {
    v.map_values(
        |s: Option<String>|
            match s {
                Some(t) => Some(t@),
                None => None,
            },
    )
}

/// `serde_json::from_str`, then `Value::get`, `Value::as_array` and
/// `Value::as_str` on each element: the list under a name in a JSON text. What
/// JSON looks like is not stated.
#[verifier::external_body]
fn string_list(text: &str, name: &str) -> (r: Option<Vec<Option<String>>>)
    ensures
        match r {
            Some(v) => listed_strings(text@, name@) == Some(opt_texts(v@)),
            None => listed_strings(text@, name@) is None,
        },
{
    let value: serde_json::Value = serde_json::from_str(text).ok()?;
    let list = value.get(name)?.as_array()?;
    Some(list.iter().map(|e| e.as_str().map(String::from)).collect())
}

/// The text is JSON that an object can hold: `serde_json::from_str` reads an
/// object with the text as the value of a member, so the text is not nested too
/// deeply for that.
pub uninterp spec fn is_json(text: Seq<char>) -> bool;

/// The members of the object that `serde_json` reads from a JSON text, each
/// with its name and the JSON text of its value; nothing where the text is no
/// JSON or no object.
pub uninterp spec fn object_members(text: Seq<char>) -> Option<Seq<(Seq<char>, Seq<char>)>>;

/// Names and texts as sequences.
pub open spec fn text_pairs(v: Seq<(String, String)>) -> Seq<(Seq<char>, Seq<char>)> {
    v.map_values(|p: (String, String)| (p.0@, p.1@))
}

/// `serde_json::from_str`, then `Value::to_string` on each member of an object:
/// its members in the order of `serde_json::Map`. The text of each value is JSON
/// that an object can hold, as the value came out of one. What JSON looks like is
/// not stated.
#[verifier::external_body]
fn members_of(text: &str) -> (r: Option<Vec<(String, String)>>)
    ensures
        match r {
            Some(v) => object_members(text@) == Some(text_pairs(v@)),
            None => object_members(text@) is None,
        },
        r matches Some(v) ==> forall|i: int|
            #![trigger v@[i]]
            0 <= i < v@.len() ==> is_json(v@[i].1@),
{
    match serde_json::from_str::<serde_json::Value>(text).ok()? {
        serde_json::Value::Object(m) => {
            Some(m.into_iter().map(|(k, v)| (k, v.to_string())).collect())
        },
        _ => None,
    }
}

/// The value of a member that is to be written: a JSON text, a number, a text,
/// or a list of texts.
#[derive(Debug)]
pub enum JsonMember {
    Raw(String),
    Number(u64),
    Text(String),
    Strings(Vec<String>),
}

/// The value of a member as a mathematical value.
pub enum MemberModel {
    Raw(Seq<char>),
    Number(u64),
    Text(Seq<char>),
    Strings(Seq<Seq<char>>),
}

impl View for JsonMember {
    type V = MemberModel;

    open spec fn view(&self) -> MemberModel {
        match self {
            JsonMember::Raw(t) => MemberModel::Raw(t@),
            JsonMember::Number(n) => MemberModel::Number(*n),
            JsonMember::Text(t) => MemberModel::Text(t@),
            JsonMember::Strings(l) => MemberModel::Strings(texts(l@)),
        }
    }
}

/// The members of an object as mathematical values.
pub open spec fn member_models(v: Seq<(String, JsonMember)>) -> Seq<(Seq<char>, MemberModel)> {
    v.map_values(|p: (String, JsonMember)| (p.0@, p.1@))
}

/// What `serde_json` writes for an object with the given members.
pub uninterp spec fn object_text(members: Seq<(Seq<char>, MemberModel)>) -> Seq<char>;

/// `serde_json::from_str` and `serde_json::Value::from` for the values, then
/// `serde_json::to_string_pretty`: the text of an object with the given members,
/// where a later member takes the place of an earlier one of its name. A list of
/// texts is read back as it was. How the object is laid out is not stated.
#[verifier::external_body]
fn object_document(members: &Vec<(String, JsonMember)>) -> (r: String)
    requires
        forall|i: int|
            #![trigger members@[i]]
            0 <= i < members@.len() ==> (members@[i].1 matches JsonMember::Raw(t) ==> is_json(t@)),
    ensures
        r@ == object_text(member_models(members@)),
        forall|i: int|
            #![trigger members@[i]]
            0 <= i < members@.len() && members@[i].1 is Strings && (forall|j: int|
                #![trigger members@[j]]
                i < j < members@.len() ==> members@[j].0@ != members@[i].0@) ==> listed_strings(
                r@,
                members@[i].0@,
            ) == Some(
                texts(members@[i].1->Strings_0@).map_values(|s: Seq<char>| Some(s)),
            ),
{
    let value = |m: &JsonMember| match m {
        JsonMember::Raw(t) => serde_json::from_str(t).unwrap(),
        JsonMember::Number(n) => serde_json::Value::from(*n),
        JsonMember::Text(t) => serde_json::Value::from(t.as_str()),
        JsonMember::Strings(l) => serde_json::Value::from(l.clone()),
    };
    let map: serde_json::Map<String, serde_json::Value> = members
        .iter()
        .map(|(k, m)| (k.clone(), value(m)))
        .collect();
    serde_json::to_string_pretty(&serde_json::Value::Object(map)).unwrap()
}

/// The texts that are there, in order.
pub open spec fn present(v: Seq<Option<Seq<char>>>) -> Seq<Seq<char>>
    decreases v.len(),
{
    if v.len() == 0 {
        seq![]
    } else {
        match v.last() {
            Some(t) => present(v.drop_last()).push(t),
            None => present(v.drop_last()),
        }
    }
}

/// The keys in a registry: the strings of its list; none where it cannot be
/// read.
pub open spec fn keys_in(list: Option<Seq<Option<Seq<char>>>>) -> Seq<Seq<char>> {
    match list {
        Some(v) => present(v),
        None => seq![],
    }
}

/// The strings among the elements of a list.
pub fn strings_of(list: Vec<Option<String>>) -> (r: Vec<String>)
    ensures
        texts(r@) == present(opt_texts(list@)),
{
    let mut r: Vec<String> = Vec::new();
    let mut i: usize = 0;
    let ghost all = opt_texts(list@);
    assert(texts(r@) =~= present(all.take(0)));
    while i < list.len()
        invariant
            i <= list@.len(),
            all == opt_texts(list@),
            texts(r@) == present(all.take(i as int)),
        decreases list@.len() - i,
    {
        let ghost before = texts(r@);
        assert(all.take(i as int + 1).drop_last() =~= all.take(i as int));
        assert(all.take(i as int + 1).last() == all[i as int]);
        match &list[i] {
            Some(t) => {
                r.push(t.clone());
                assert(texts(r@) =~= before.push(t@));
            },
            None => {},
        }
        i += 1;
    }
    assert(all.take(all.len() as int) =~= all);
    r
}

/// The keys in the text of a registry of blocks.
pub fn registry_keys(text: &str) -> (r: Vec<String>)
    ensures
        texts(r@) == keys_in(listed_strings(text@, "blocks"@)),
{
    match string_list(text, "blocks") {
        Some(v) => strings_of(v),
        None => {
            let r: Vec<String> = Vec::new();
            assert(texts(r@) =~= seq![]);
            r
        },
    }
}

/// The JSON text of the first member of a name.
pub open spec fn member_text(members: Seq<(Seq<char>, Seq<char>)>, name: Seq<char>, from: int) -> Option<
    Seq<char>,
>
    decreases members.len() - from,
{
    if from < 0 || from >= members.len() {
        None
    } else if members[from].0 == name {
        Some(members[from].1)
    } else {
        member_text(members, name, from + 1)
    }
}

fn find_member(members: &Vec<(String, String)>, name: &str) -> (r: Option<String>)
    requires
        forall|i: int|
            #![trigger members@[i]]
            0 <= i < members@.len() ==> is_json(members@[i].1@),
    ensures
        match r {
            Some(t) => member_text(text_pairs(members@), name@, 0) == Some(t@) && is_json(t@),
            None => member_text(text_pairs(members@), name@, 0) is None,
        },
{
    let ghost all = text_pairs(members@);
    let mut i: usize = 0;
    while i < members.len()
        invariant
            i <= members@.len(),
            all == text_pairs(members@),
            member_text(all, name@, 0) == member_text(all, name@, i as int),
            forall|i: int|
                #![trigger members@[i]]
                0 <= i < members@.len() ==> is_json(members@[i].1@),
        decreases members@.len() - i,
    {
        assert(all[i as int] == (members@[i as int].0@, members@[i as int].1@));
        if text::same_text(members[i].0.as_str(), name) {
            return Some(members[i].1.clone());
        }
        i += 1;
    }
    None
}

/// The members of what may be the text of an object.
pub open spec fn members_in(text: Option<Seq<char>>) -> Seq<(Seq<char>, Seq<char>)> {
    match text {
        Some(t) => match object_members(t) {
            Some(m) => m,
            None => Seq::empty(),
        },
        None => Seq::empty(),
    }
}

/// The members of a registry of blocks with the given keys. Version and
/// description are those of the older text, where there is one with them.
pub open spec fn registry_members(older: Option<Seq<char>>, keys: Seq<Seq<char>>) -> Seq<
    (Seq<char>, MemberModel),
> {
    seq![
        (
            "format_version"@,
            match member_text(members_in(older), "format_version"@, 0) {
                Some(t) => MemberModel::Raw(t),
                None => MemberModel::Number(1),
            },
        ),
        (
            "description"@,
            match member_text(members_in(older), "description"@, 0) {
                Some(t) => MemberModel::Raw(t),
                None => MemberModel::Text("QubePixel Block Registry"@),
            },
        ),
        ("blocks"@, MemberModel::Strings(keys)),
    ]
}

/// Writes a registry of blocks.
pub fn registry_document(older: Option<&str>, keys: &Vec<String>) -> (r: String)
    ensures
        r@ == object_text(
            registry_members(
                match older {
                    Some(t) => Some(t@),
                    None => None,
                },
                texts(keys@),
            ),
        ),
        keys_in(listed_strings(r@, "blocks"@)) == texts(keys@),
{
    let old_members: Vec<(String, String)> = match older {
        Some(t) => match members_of(t) {
            Some(m) => m,
            None => Vec::new(),
        },
        None => Vec::new(),
    };
    let ghost old_text = match older {
        Some(t) => Some(t@),
        None => None,
    };
    assert(text_pairs(old_members@) =~= members_in(old_text));
    let version: JsonMember = match find_member(&old_members, "format_version") {
        Some(t) => JsonMember::Raw(t),
        None => JsonMember::Number(1),
    };
    let description: JsonMember = match find_member(&old_members, "description") {
        Some(t) => JsonMember::Raw(t),
        None => JsonMember::Text("QubePixel Block Registry".to_string()),
    };
    let mut members: Vec<(String, JsonMember)> = Vec::new();
    members.push(("format_version".to_string(), version));
    members.push(("description".to_string(), description));
    members.push(
        ("blocks".to_string(), JsonMember::Strings(crate::block_editor::clone_texts(keys))),
    );
    proof {
        lemma_present_all(texts(keys@));
        assert(member_models(members@) =~= registry_members(old_text, texts(keys@)));
        assert(members@[2].1 is Strings);
    }
    object_document(&members)
}

/// Where every element is there, all of them are.
pub proof fn lemma_present_all(s: Seq<Seq<char>>)
    ensures
        present(s.map_values(|t: Seq<char>| Some(t))) == s,
    decreases s.len(),
{
    let f = |t: Seq<char>| Some(t);
    let v = s.map_values(f);
    if s.len() > 0 {
        lemma_present_all(s.drop_last());
        assert(v.drop_last() =~= s.drop_last().map_values(f));
        assert(s.drop_last().push(s.last()) =~= s);
    } else {
        assert(present(v) =~= s);
    }
}

/// The members of a block's file: the version of the format, then the
/// properties, each of which takes the place of an earlier member of its name.
pub open spec fn block_members(properties: Seq<(Seq<char>, Seq<char>)>) -> Seq<
    (Seq<char>, MemberModel),
> {
    seq![("format_version"@, MemberModel::Number(2))] + properties.map_values(
        |p: (Seq<char>, Seq<char>)| (p.0, MemberModel::Raw(p.1)),
    )
}

/// The text of a block's file: its properties, and the version of the format
/// where they do not give one. There is none where the properties are no
/// object.
pub fn block_document(properties: &str) -> (r: Option<String>)
    ensures
        match r {
            Some(t) => object_members(properties@) matches Some(m) && t@ == object_text(
                block_members(m),
            ),
            None => object_members(properties@) is None,
        },
{
    let list: Vec<(String, String)> = match members_of(properties) {
        Some(m) => m,
        None => {
            return None;
        },
    };
    let mut members: Vec<(String, JsonMember)> = Vec::new();
    members.push(("format_version".to_string(), JsonMember::Number(2)));
    let ghost all = block_members(text_pairs(list@));
    let mut i: usize = 0;
    assert(member_models(members@) =~= all.take(1));
    while i < list.len()
        invariant
            i <= list@.len(),
            all == block_members(text_pairs(list@)),
            members@.len() == i + 1,
            member_models(members@) == all.take(i as int + 1),
            forall|k: int| #![trigger list@[k]] 0 <= k < list@.len() ==> is_json(list@[k].1@),
            forall|k: int|
                #![trigger members@[k]]
                0 <= k < members@.len() ==> (members@[k].1 matches JsonMember::Raw(t) ==> is_json(
                    t@,
                )),
        decreases list@.len() - i,
    {
        let ghost before = members@;
        let raw: JsonMember = JsonMember::Raw(list[i].1.clone());
        members.push((list[i].0.clone(), raw));
        assert(member_models(members@) =~= member_models(before).push(all[i as int + 1]));
        assert(all.take(i as int + 2) =~= all.take(i as int + 1).push(all[i as int + 1]));
        i += 1;
    }
    assert(all.take(all.len() as int) =~= all);
    Some(object_document(&members))
}

/// Of a list with gaps the strings that are there are kept, in order.
pub proof fn law_present(a: Seq<Option<Seq<char>>>, b: Seq<Option<Seq<char>>>, t: Seq<char>)
    ensures
        present(Seq::empty()).len() == 0,
        present(seq![Some(t)]) == seq![t],
        present(seq![None]).len() == 0,
        present(a + b) == present(a) + present(b),
        keys_in(None).len() == 0,
        keys_in(Some(a)) == present(a),
    decreases b.len(),
{
    reveal_with_fuel(present, 2);
    let none: Option<Seq<char>> = None;
    assert(seq![none].drop_last() =~= Seq::empty());
    assert(seq![Some(t)].drop_last() =~= Seq::empty());
    assert(present(seq![Some(t)]) =~= seq![t]);
    if b.len() == 0 {
        assert(a + b =~= a);
        assert(present(a) + present(b) =~= present(a));
    } else {
        law_present(a, b.drop_last(), t);
        assert((a + b).drop_last() =~= a + b.drop_last());
        assert(present(a + b) =~= present(a) + present(b));
    }
}

/// The member of a name is the first of that name, and there is none where
/// no member has the name.
pub proof fn law_member(members: Seq<(Seq<char>, Seq<char>)>, name: Seq<char>, from: int, i: int)
    requires
        0 <= from <= members.len(),
    ensures
        from <= i < members.len() && members[i].0 == name && (forall|j: int|
            #![trigger members[j]]
            from <= j < i ==> members[j].0 != name) ==> member_text(members, name, from) == Some(
            members[i].1,
        ),
        (forall|j: int| #![trigger members[j]] from <= j < members.len() ==> members[j].0 != name)
            ==> member_text(members, name, from) is None,
    decreases members.len() - from,
{
    if from < members.len() {
        assert(members[from].0 == members[from].0);
        if members[from].0 != name {
            law_member(members, name, from + 1, i);
        }
    }
}

/// A registry holds its version and its description as they were, or the
/// first version and the usual description where there were none, and the keys.
pub proof fn law_registry(older: Option<Seq<char>>, keys: Seq<Seq<char>>, m: Seq<(Seq<char>, Seq<char>)>)
    ensures
        older is None ==> members_in(older).len() == 0,
        older matches Some(t) ==> object_members(t) is None ==> members_in(older).len() == 0,
        older matches Some(t) ==> object_members(t) == Some(m) ==> members_in(older) == m,
        ({
            let r = registry_members(older, keys);
            let version = member_text(members_in(older), "format_version"@, 0);
            let about = member_text(members_in(older), "description"@, 0);
            &&& r.len() == 3
            &&& r[0].0 == "format_version"@ && r[1].0 == "description"@ && r[2].0 == "blocks"@
            &&& r[2].1 == MemberModel::Strings(keys)
            &&& version is None ==> r[0].1 == MemberModel::Number(1)
            &&& version matches Some(t) ==> r[0].1 == MemberModel::Raw(t)
            &&& about is None ==> r[1].1 == MemberModel::Text("QubePixel Block Registry"@)
            &&& about matches Some(t) ==> r[1].1 == MemberModel::Raw(t)
        }),
{
}

/// The document of a block holds the second version and then the block's
/// properties as they are, in order.
pub proof fn law_block_document(p: Seq<(Seq<char>, Seq<char>)>, i: int)
    ensures
        block_members(p).len() == p.len() + 1,
        block_members(p)[0] == ("format_version"@, MemberModel::Number(2)),
        0 <= i < p.len() ==> block_members(p)[i + 1] == (p[i].0, MemberModel::Raw(p[i].1)),
{
}

/// The models of members, pairs and texts with gaps are those of their parts,
/// place by place.
pub proof fn law_member_models(
    v: Seq<(String, JsonMember)>,
    p: Seq<(String, String)>,
    o: Seq<Option<String>>,
    i: int,
)
    ensures
        member_models(v).len() == v.len(),
        text_pairs(p).len() == p.len(),
        opt_texts(o).len() == o.len(),
        0 <= i < v.len() ==> member_models(v)[i].0 == v[i].0@ && (match v[i].1 {
            JsonMember::Raw(t) => member_models(v)[i].1 == MemberModel::Raw(t@),
            JsonMember::Number(n) => member_models(v)[i].1 == MemberModel::Number(n),
            JsonMember::Text(t) => member_models(v)[i].1 == MemberModel::Text(t@),
            JsonMember::Strings(l) => member_models(v)[i].1 == MemberModel::Strings(texts(l@)),
        }),
        0 <= i < p.len() ==> text_pairs(p)[i] == (p[i].0@, p[i].1@),
        0 <= i < o.len() && o[i] is None ==> opt_texts(o)[i] is None,
        0 <= i < o.len() && o[i] is Some ==> opt_texts(o)[i] == Some(o[i]->Some_0@),
{
}

} // verus!
