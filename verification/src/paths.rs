//! Paths of asset files, given by their parts from the root on.
use crate::inventory_ui::texts;
use crate::text;
use vstd::prelude::*;
use vstd::string::*;

verus! {

/// The parts one behind the other, with slashes between them.
pub open spec fn slashed(parts: Seq<Seq<char>>) -> Seq<char>
    decreases parts.len(),
{
    if parts.len() == 0 {
        seq![]
    } else if parts.len() == 1 {
        parts[0]
    } else {
        slashed(parts.drop_last()) + "/"@ + parts.last()
    }
}

/// The path lies in the directory, or is it.
pub open spec fn lies_in(path: Seq<Seq<char>>, dir: Seq<Seq<char>>) -> bool {
    dir.len() <= path.len() && path.take(dir.len() as int) == dir
}

/// The path as seen from the directory in which it lies.
pub open spec fn seen_from(path: Seq<Seq<char>>, dir: Seq<Seq<char>>) -> Seq<Seq<char>> {
    path.subrange(dir.len() as int, path.len() as int)
}

/// Position of the last dot of a name, or -1.
pub open spec fn last_dot(name: Seq<char>) -> int
    decreases name.len(),
{
    if name.len() == 0 {
        -1
    } else if name.last() == '.' {
        name.len() - 1
    } else {
        last_dot(name.drop_last())
    }
}

/// The name without its extension. A dot at the start begins no extension.
pub open spec fn stem(name: Seq<char>) -> Seq<char> {
    if last_dot(name) > 0 {
        name.take(last_dot(name))
    } else {
        name
    }
}

/// The path with the extension of its last part dropped.
pub open spec fn without_extension(parts: Seq<Seq<char>>) -> Seq<Seq<char>> {
    if parts.len() == 0 {
        parts
    } else {
        parts.drop_last().push(stem(parts.last()))
    }
}

/// The path as a text, with slashes only.
pub open spec fn path_text(parts: Seq<Seq<char>>) -> Seq<char> {
    text::replace_spec(slashed(parts), '\\', '/')
}

/// The directory of block textures.
pub open spec fn textures_dir(assets: Seq<Seq<char>>) -> Seq<Seq<char>> {
    assets.push("textures"@).push("simpleblocks"@)
}

/// The key of a texture file: its path from the directory of block textures
/// on, without extension. A file outside that directory has none.
pub open spec fn key_of(path: Seq<Seq<char>>, assets: Seq<Seq<char>>) -> Option<Seq<char>> {
    if lies_in(path, textures_dir(assets)) {
        Some(path_text(without_extension(seen_from(path, textures_dir(assets)))))
    } else {
        None
    }
}

proof fn lemma_last_dot(name: Seq<char>, i: int)
    requires
        -1 <= i < name.len(),
        forall|j: int| #![trigger name[j]] i < j < name.len() ==> name[j] != '.',
        i >= 0 ==> name[i] == '.',
    ensures
        last_dot(name) == i,
    decreases name.len(),
{
    if name.len() > 0 && i < name.len() - 1 {
        assert(name[name.len() - 1] != '.');
        lemma_last_dot(name.drop_last(), i);
    }
}

fn name_stem(name: &str) -> (r: String)
    ensures
        r@ == stem(name@),
{
    let v: Vec<char> = text::chars_of(name);
    let mut i: usize = v.len();
    while i > 0 && v[i - 1] != '.'
        invariant
            i <= v@.len(),
            v@ == name@,
            forall|j: int| #![trigger v@[j]] i <= j < v@.len() ==> v@[j] != '.',
        decreases i,
    {
        i -= 1;
    }
    proof {
        lemma_last_dot(name@, i - 1);
    }
    if i > 1 {
        let r: String = text::string_of_range(&v, 0, i - 1);
        assert(r@ =~= name@.take(i - 1));
        r
    } else {
        name.to_string()
    }
}

fn starts_with(path: &Vec<String>, dir: &Vec<String>) -> (r: bool)
    ensures
        r == lies_in(texts(path@), texts(dir@)),
{
    if dir.len() > path.len() {
        return false;
    }
    let mut i: usize = 0;
    while i < dir.len()
        invariant
            i <= dir@.len(),
            dir@.len() <= path@.len(),
            forall|j: int| #![trigger path@[j]] 0 <= j < i ==> path@[j]@ == dir@[j]@,
        decreases dir@.len() - i,
    {
        if path[i] != dir[i] {
            assert(texts(path@).take(dir@.len() as int)[i as int] != texts(dir@)[i as int]);
            return false;
        }
        i += 1;
    }
    assert(texts(path@).take(dir@.len() as int) =~= texts(dir@));
    true
}

/// The parts of `v` from `from` on as a text with slashes only, without the
/// extension of the last part where `strip` is set.
fn text_from(v: &Vec<String>, from: usize, strip: bool) -> (r: String)
    requires
        from <= v@.len(),
    ensures
        r@ == path_text(
            if strip {
                without_extension(texts(v@).subrange(from as int, v@.len() as int))
            } else {
                texts(v@).subrange(from as int, v@.len() as int)
            },
        ),
{
    let ghost tail = texts(v@).subrange(from as int, v@.len() as int);
    let ghost parts = if strip {
        without_extension(tail)
    } else {
        tail
    };
    let mut s: String = String::new();
    let mut i: usize = from;
    assert(s@ =~= slashed(parts.take(0)));
    while i < v.len()
        invariant
            from <= i <= v@.len(),
            tail == texts(v@).subrange(from as int, v@.len() as int),
            parts == (if strip {
                without_extension(tail)
            } else {
                tail
            }),
            s@ == slashed(parts.take(i - from)),
        decreases v@.len() - i,
    {
        let ghost k = i - from;
        let ghost before = s@;
        let part: String = if strip && i + 1 == v.len() {
            name_stem(v[i].as_str())
        } else {
            v[i].clone()
        };
        assert(tail[k] == v@[i as int]@);
        assert(part@ == parts[k]);
        if i > from {
            s.append("/");
        }
        s.append(part.as_str());
        proof {
            let next = parts.take(k + 1);
            assert(next.drop_last() =~= parts.take(k));
            assert(next.last() == parts[k]);
            if k == 0 {
                assert(next.len() == 1);
                assert(s@ =~= parts[k]);
            } else {
                assert(s@ =~= before + "/"@ + parts[k]);
            }
        }
        i += 1;
    }
    assert(parts.take(parts.len() as int) =~= parts);
    text::replace_char(s.as_str(), '\\', '/')
}

/// The key of the texture in a file, if the file lies among the block textures.
pub fn texture_key(path: &Vec<String>, assets: &Vec<String>) -> (r: Option<String>)
    ensures
        match r {
            Some(t) => key_of(texts(path@), texts(assets@)) == Some(t@),
            None => key_of(texts(path@), texts(assets@)) is None,
        },
{
    let mut dir: Vec<String> = crate::block_editor::clone_texts(assets);
    dir.push("textures".to_string());
    dir.push("simpleblocks".to_string());
    assert(texts(dir@) =~= textures_dir(texts(assets@)));
    if starts_with(path, &dir) {
        Some(text_from(path, dir.len(), true))
    } else {
        None
    }
}

/// The path of a picked file as it is kept: from the working directory on
/// where it lies in it, else as it was picked; with slashes only.
pub fn project_path(path: &Vec<String>, working: &Vec<String>, picked: &str) -> (r: String)
    ensures
        r@ == if lies_in(texts(path@), texts(working@)) {
            path_text(seen_from(texts(path@), texts(working@)))
        } else {
            text::replace_spec(picked@, '\\', '/')
        },
{
    if starts_with(path, working) {
        text_from(path, working.len(), false)
    } else {
        text::replace_char(picked, '\\', '/')
    }
}

/// Paths that are kept hold no backslash.
pub proof fn law_no_backslash(s: Seq<char>, i: int)
    requires
        0 <= i < s.len(),
    ensures
        text::replace_spec(s, '\\', '/')[i] != '\\',
        text::replace_spec(s, '\\', '/').len() == s.len(),
{
}

/// A path is written with one slash between each two of its parts.
pub proof fn law_slashed(parts: Seq<Seq<char>>, a: Seq<char>)
    ensures
        slashed(Seq::empty()).len() == 0,
        slashed(seq![a]) == a,
        parts.len() > 0 ==> slashed(parts.push(a)) == slashed(parts).push('/') + a,
{
    reveal_strlit("/");
    assert("/"@ =~= seq!['/']);
    assert(parts.push(a).drop_last() =~= parts);
    assert(slashed(parts) + "/"@ =~= slashed(parts).push('/'));
}

/// A path lies in a directory exactly where it is the directory and then some
/// parts, and those parts are the path as seen from there.
pub proof fn law_lies_in(path: Seq<Seq<char>>, dir: Seq<Seq<char>>, rest: Seq<Seq<char>>)
    ensures
        lies_in(dir + rest, dir),
        seen_from(dir + rest, dir) == rest,
        lies_in(path, dir) ==> dir + seen_from(path, dir) == path,
{
    assert((dir + rest).take(dir.len() as int) =~= dir);
    assert(seen_from(dir + rest, dir) =~= rest);
    if lies_in(path, dir) {
        assert(path.take(dir.len() as int) + seen_from(path, dir) =~= path);
    }
}

proof fn lemma_dot_before(a: Seq<char>, b: Seq<char>)
    requires
        forall|i: int| #![trigger b[i]] 0 <= i < b.len() ==> b[i] != '.',
    ensures
        last_dot(a.push('.') + b) == a.len(),
        last_dot(b) == -1,
    decreases b.len(),
{
    let s = a.push('.') + b;
    if b.len() == 0 {
        assert(s =~= a.push('.'));
    } else {
        assert(b[b.len() - 1] != '.');
        assert(s.drop_last() =~= a.push('.') + b.drop_last());
        assert forall|i: int| #![trigger b.drop_last()[i]] 0 <= i < b.drop_last().len() implies b.drop_last()[i]
            != '.' by {
            assert(b[i] != '.');
        }
        lemma_dot_before(a, b.drop_last());
    }
}

/// The stem of a name is what stands before its last dot; a name without a
/// dot, or with none but the first character, is its own stem.
pub proof fn law_stem(a: Seq<char>, b: Seq<char>)
    requires
        forall|i: int| #![trigger b[i]] 0 <= i < b.len() ==> b[i] != '.',
    ensures
        stem(b) == b,
        a.len() > 0 ==> stem(a.push('.') + b) == a,
        stem(seq!['.'] + b) == seq!['.'] + b,
{
    lemma_dot_before(a, b);
    assert((a.push('.') + b).take(a.len() as int) =~= a);
    lemma_dot_before(Seq::empty(), b);
    assert(Seq::<char>::empty().push('.') =~= seq!['.']);
}

/// The key of a texture is its path below the textures of simple blocks,
/// without the extension of its last part, and with slashes only. A path elsewhere
/// has no key.
pub proof fn law_texture_key(
    path: Seq<Seq<char>>,
    assets: Seq<Seq<char>>,
    dirs: Seq<Seq<char>>,
    name: Seq<char>,
)
    ensures
        key_of(assets + seq!["textures"@, "simpleblocks"@] + dirs.push(name), assets) == Some(
            text::replace_spec(slashed(dirs.push(stem(name))), '\\', '/'),
        ),
        key_of(path, assets) is Some ==> path == assets + seq!["textures"@, "simpleblocks"@]
            + path.skip(assets.len() as int + 2),
{
    let dir = assets + seq!["textures"@, "simpleblocks"@];
    assert(textures_dir(assets) =~= dir);
    law_lies_in(path, dir, dirs.push(name));
    assert(dirs.push(name).drop_last() =~= dirs);
    if key_of(path, assets) is Some {
        assert(path == dir + seen_from(path, dir));
        assert(seen_from(path, dir) =~= path.skip(assets.len() as int + 2));
    }
}

} // verus!
