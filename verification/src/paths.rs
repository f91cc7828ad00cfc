//! File paths as text, with `/` between their parts.
use vstd::prelude::*;
use vstd::string::*;
use crate::digest::hex_name;
use crate::text::{chars_of, same_chars, split};

verus! {

/// Where `path` is, seen from `parent`: `path` itself where it is absolute.
pub open spec fn joined_path(parent: Seq<char>, path: Seq<char>) -> Seq<char> {
    if path.len() > 0 && path[0] == '/' {
        path
    } else if parent.len() == 0 || parent.last() == '/' {
        parent + path
    } else {
        parent + "/"@ + path
    }
}

/// Where `path` is, seen from `parent`.
pub fn join_path(parent: &str, path: &str) -> (joined: String)
    ensures
        joined@ == joined_path(parent@, path@),
{
    let above: Vec<char> = chars_of(parent);
    let below: Vec<char> = chars_of(path);
    if below.len() > 0 && below[0] == '/' {
        return path.to_owned();
    }
    let mut joined: String = parent.to_owned();
    if above.len() > 0 && above[above.len() - 1] != '/' {
        joined.append("/");
    }
    joined.append(path);
    joined
}

/// The parts that count: neither empty nor `.`.
pub open spec fn solid_parts(parts: Seq<Seq<char>>) -> Seq<Seq<char>>
    decreases parts.len(),
{
    if parts.len() == 0 {
        Seq::empty()
    } else if parts.last() == ""@ || parts.last() == "."@ {
        solid_parts(parts.drop_last())
    } else {
        solid_parts(parts.drop_last()).push(parts.last())
    }
}

/// What a path begins with: the root, the current directory, or neither.
pub open spec fn path_head(path: Seq<char>) -> Seq<Seq<char>> {
    if path.len() > 0 && path[0] == '/' {
        seq!["/"@]
    } else if crate::text::segments(path, '/')[0] == "."@ {
        seq!["."@]
    } else {
        Seq::empty()
    }
}

/// The components of a path. Repeated and trailing separators make no difference, nor does `.`
/// anywhere but at the front.
pub open spec fn components(path: Seq<char>) -> Seq<Seq<char>> {
    path_head(path) + solid_parts(crate::text::segments(path, '/'))
}

/// Whether `path` is `base` or lies below it.
pub open spec fn lies_under(path: Seq<char>, base: Seq<char>) -> bool {
    components(base).is_prefix_of(components(path))
}

/// The components of a path.
fn components_of(path: &str) -> (parts: Vec<Vec<char>>)
    ensures
        crate::text::char_lists(parts@) == components(path@),
{
    let chars: Vec<char> = chars_of(path);
    let pieces: Vec<Vec<char>> = split(&chars, '/');
    let ghost all = crate::text::char_lists(pieces@);
    let empty: Vec<char> = chars_of("");
    let dot: Vec<char> = chars_of(".");
    let mut parts: Vec<Vec<char>> = Vec::new();
    proof {
        crate::text::lemma_segments_nonempty(path@, '/');
        assert(all[0] == pieces@[0]@);
    }
    if chars.len() > 0 && chars[0] == '/' {
        let root: Vec<char> = chars_of("/");
        parts.push(root);
    } else if same_chars(&pieces[0], &dot) {
        let here: Vec<char> = chars_of(".");
        parts.push(here);
    }
    let ghost head = path_head(path@);
    proof {
        assert(crate::text::char_lists(parts@) =~= head);
        assert(all.take(0) =~= Seq::<Seq<char>>::empty());
        assert(head + solid_parts(all.take(0)) =~= head);
    }
    let mut i: usize = 0;
    while i < pieces.len()
        invariant
            i <= pieces.len(),
            all == crate::text::char_lists(pieces@),
            empty@ == ""@,
            dot@ == "."@,
            crate::text::char_lists(parts@) == head + solid_parts(all.take(i as int)),
        decreases pieces.len() - i,
    {
        let ghost before = crate::text::char_lists(parts@);
        let ghost here = pieces@[i as int]@;
        proof {
            assert(all[i as int] == here);
            assert(all.take(i + 1).drop_last() =~= all.take(i as int));
        }
        if !same_chars(&pieces[i], &empty) && !same_chars(&pieces[i], &dot) {
            let piece: Vec<char> = crate::text::slice_of(&pieces[i], 0, pieces[i].len());
            assert(piece@ =~= here);
            parts.push(piece);
            proof {
                assert(crate::text::char_lists(parts@) =~= before.push(here));
                assert((head + solid_parts(all.take(i as int))).push(here) =~= head + solid_parts(
                    all.take(i + 1),
                ));
            }
        }
        i += 1;
    }
    assert(all.take(all.len() as int) =~= all);
    parts
}

/// Whether `path` is `base` or lies below it.
pub fn is_under(path: &str, base: &str) -> (yes: bool)
    ensures
        yes == lies_under(path@, base@),
{
    let outer: Vec<Vec<char>> = components_of(base);
    let inner: Vec<Vec<char>> = components_of(path);
    let ghost b = components(base@);
    let ghost p = components(path@);
    if outer.len() > inner.len() {
        return false;
    }
    let mut i: usize = 0;
    while i < outer.len()
        invariant
            i <= outer.len() <= inner.len(),
            b == components(base@),
            p == components(path@),
            b == crate::text::char_lists(outer@),
            p == crate::text::char_lists(inner@),
            forall|j: int| 0 <= j < i ==> #[trigger] b[j] == p[j],
        decreases outer.len() - i,
    {
        assert(b[i as int] == outer@[i as int]@);
        assert(p[i as int] == inner@[i as int]@);
        if !same_chars(&outer[i], &inner[i]) {
            assert(b[i as int] != p.subrange(0, b.len() as int)[i as int]);
            return false;
        }
        i += 1;
    }
    assert(b =~= p.subrange(0, b.len() as int));
    true
}

/// The temporary file, in a directory, for some random bytes.
pub open spec fn temp_path_of(temp_dir: Seq<char>, random: Seq<u8>) -> Seq<char> {
    joined_path(temp_dir, crate::digest::hex_text(random))
}

/// The temporary file, in a directory, for some random bytes.
pub fn temp_file_path(temp_dir: &str, random: &Vec<u8>) -> (path: String)
    ensures
        path@ == temp_path_of(temp_dir@, random@),
{
    join_path(temp_dir, hex_name(random).as_str())
}

/// Temporary files for different random bytes are different.
pub proof fn law_temp_paths_differ(temp_dir: Seq<char>, a: Seq<u8>, b: Seq<u8>)
    requires
        temp_path_of(temp_dir, a) == temp_path_of(temp_dir, b),
    ensures
        a == b,
{
    let x = crate::digest::hex_text(a);
    let y = crate::digest::hex_text(b);
    crate::digest::law_hex_alphabet(a);
    crate::digest::law_hex_alphabet(b);
    let n = if temp_dir.len() == 0 || temp_dir.last() == '/' {
        temp_dir.len() as int
    } else {
        temp_dir.len() as int + 1
    };
    reveal_strlit("/");
    assert(temp_path_of(temp_dir, a).skip(n) =~= x);
    assert(temp_path_of(temp_dir, b).skip(n) =~= y);
    crate::digest::law_hex_injective(a, b);
}

/// Every path lies under itself.
pub proof fn law_under_itself(path: Seq<char>)
    ensures
        lies_under(path, path),
{
    assert(components(path) =~= components(path).subrange(0, components(path).len() as int));
}

/// A relative name, joined to a directory, gives a path that begins with that directory.
pub proof fn law_join_keeps_parent(parent: Seq<char>, name: Seq<char>)
    requires
        name.len() > 0 ==> name[0] != '/',
    ensures
        crate::text::begins_with(joined_path(parent, name), parent),
{
    assert(joined_path(parent, name).take(parent.len() as int) =~= parent);
}

/// A relative name, joined to a directory, ends the path, with one separator in front of it and nothing
/// else; an absolute name is a path of its own.
pub proof fn law_join_ends_with_name(parent: Seq<char>, name: Seq<char>)
    ensures
        name.len() > 0 && name[0] == '/' ==> joined_path(parent, name) == name,
        !(name.len() > 0 && name[0] == '/') ==> ({
            let joined = joined_path(parent, name);
            &&& joined.skip(joined.len() - name.len()) == name
            &&& parent.len() == 0 ==> joined == name
            &&& parent.len() > 0 && parent.last() == '/' ==> joined.len() == parent.len()
                + name.len()
            &&& parent.len() > 0 && parent.last() != '/' ==> joined.len() == parent.len()
                + name.len() + 1 && joined[parent.len() as int] == '/'
        }),
{
    reveal_strlit("/");
    let joined = joined_path(parent, name);
    assert(joined.skip(joined.len() - name.len()) =~= name);
    assert(Seq::<char>::empty() + name =~= name);
    if parent.len() == 0 {
        assert(joined =~= name);
    }
}

proof fn lemma_solid_joined(front: Seq<Seq<char>>, back: Seq<Seq<char>>)
    ensures
        solid_parts(front + back) == solid_parts(front) + solid_parts(back),
    decreases back.len(),
{
    if back.len() == 0 {
        assert(front + back =~= front);
        assert(solid_parts(front) + solid_parts(back) =~= solid_parts(front));
    } else {
        let all = front + back;
        lemma_solid_joined(front, back.drop_last());
        assert(all.drop_last() =~= front + back.drop_last());
        assert(all.last() == back.last());
        assert(solid_parts(all) =~= solid_parts(front) + solid_parts(back));
    }
}

/// The parts of a path are those before a separator and then those behind it; empty parts and single
/// dots do not count, and every other part does.
pub proof fn law_parts_of_a_path(front: Seq<char>, back: Seq<char>, part: Seq<char>)
    requires
        !part.contains('/'),
    ensures
        solid_parts(crate::text::segments(front + "/"@ + back, '/')) == solid_parts(
            crate::text::segments(front, '/'),
        ) + solid_parts(crate::text::segments(back, '/')),
        solid_parts(crate::text::segments(part, '/')) == (if part == ""@ || part == "."@ {
            Seq::<Seq<char>>::empty()
        } else {
            seq![part]
        }),
{
    reveal_strlit("/");
    assert("/"@ =~= seq!['/']);
    crate::text::law_cut_at_a_separator(front, back, '/');
    crate::text::law_uncut_without_separator(part, '/');
    lemma_solid_joined(crate::text::segments(front, '/'), crate::text::segments(back, '/'));
    reveal_with_fuel(solid_parts, 2);
    let one = seq![part];
    assert(one.drop_last() =~= Seq::<Seq<char>>::empty());
    if part != ""@ && part != "."@ {
        assert(solid_parts(one) =~= one);
    }
}

/// What lies below a directory lies under it, and what lies under a directory that lies under another
/// lies under that too.
pub proof fn law_below_is_under(parent: Seq<char>, name: Seq<char>, above: Seq<char>)
    requires
        parent.len() > 0,
    ensures
        lies_under(parent + "/"@ + name, parent),
        lies_under(parent, above) ==> lies_under(parent + "/"@ + name, above),
{
    reveal_strlit("/");
    reveal_strlit("");
    assert("/"@ =~= seq!['/']);
    let path = parent + "/"@ + name;
    let a = crate::text::segments(parent, '/');
    let b = crate::text::segments(name, '/');
    crate::text::law_cut_at_a_separator(parent, name, '/');
    crate::text::lemma_segments_nonempty(parent, '/');
    lemma_solid_joined(a, b);
    assert(crate::text::segments(path, '/')[0] == a[0]);
    assert(path[0] == parent[0]);
    assert(path_head(path) == path_head(parent));
    let whole = components(path);
    let own = components(parent);
    assert(whole =~= own + solid_parts(b));
    assert(own =~= whole.subrange(0, own.len() as int));
    if lies_under(parent, above) {
        let outer = components(above);
        assert(outer =~= whole.subrange(0, outer.len() as int)) by {
            assert(outer == own.subrange(0, outer.len() as int));
        }
    }
}

/// Whether text can be one part of a path, and counts as one.
pub open spec fn is_part(s: Seq<char>) -> bool {
    !s.contains('/') && s != ""@ && s != "."@
}

proof fn lemma_components_joined(front: Seq<char>, part: Seq<char>)
    requires
        is_part(part),
    ensures
        components(front + "/"@ + part) == path_head(front + "/"@) + solid_parts(
            crate::text::segments(front, '/'),
        ) + seq![part],
        forall|rest: Seq<char>| path_head(#[trigger] (front + "/"@ + rest)) == path_head(front + "/"@),
{
    reveal_strlit("/");
    assert("/"@ =~= seq!['/']);
    assert forall|rest: Seq<char>| path_head(#[trigger] (front + "/"@ + rest)) == path_head(
        front + "/"@,
    ) by {
        let none = Seq::<char>::empty();
        let path = front + "/"@ + rest;
        let bare = front + "/"@;
        assert(bare =~= front + "/"@ + none);
        crate::text::law_cut_at_a_separator(front, rest, '/');
        crate::text::law_cut_at_a_separator(front, none, '/');
        crate::text::lemma_segments_nonempty(front, '/');
        assert(crate::text::segments(path, '/')[0] == crate::text::segments(bare, '/')[0]);
        assert(path[0] == bare[0]) by {
            if front.len() > 0 {
                assert(path[0] == front[0] && bare[0] == front[0]);
            }
        }
    }
    law_parts_of_a_path(front, part, part);
    let path = front + "/"@ + part;
    assert(path_head(path) == path_head(front + "/"@));
    assert(components(path) =~= path_head(front + "/"@) + solid_parts(
        crate::text::segments(front, '/'),
    ) + seq![part]);
}

/// Of two different names in one directory, neither lies under the other, nor does anything below it:
/// whole names are compared, and a name that only begins like another is another.
pub proof fn law_other_name_is_not_under(
    front: Seq<char>,
    part: Seq<char>,
    other: Seq<char>,
    rest: Seq<char>,
)
    requires
        is_part(part),
        is_part(other),
        part != other,
    ensures
        !lies_under(front + "/"@ + other, front + "/"@ + part),
        !lies_under(front + "/"@ + other + "/"@ + rest, front + "/"@ + part),
{
    let base = front + "/"@ + part;
    let path = front + "/"@ + other;
    let deep = path + "/"@ + rest;
    lemma_components_joined(front, part);
    lemma_components_joined(front, other);
    let own = components(base);
    let whole = components(path);
    let at = own.len() - 1;
    assert(own[at] == part);
    assert(whole[at] == other);
    if lies_under(path, base) {
        assert(own == whole.subrange(0, own.len() as int));
        assert(own[at] == whole[at]);
    }
    if lies_under(deep, base) {
        reveal_strlit("/");
        assert(path.len() > 0);
        law_below_is_under(path, rest, path);
        let below = components(deep);
        assert(own == below.subrange(0, own.len() as int));
        assert(whole == below.subrange(0, whole.len() as int));
        assert(own[at] == below[at]);
        assert(whole[at] == below[at]);
    }
}

/// A directory does not lie under what is in it.
pub proof fn law_above_is_not_under(front: Seq<char>, part: Seq<char>, inner: Seq<char>)
    requires
        is_part(part),
        is_part(inner),
    ensures
        !lies_under(front + "/"@ + part, front + "/"@ + part + "/"@ + inner),
{
    let path = front + "/"@ + part;
    lemma_components_joined(front, part);
    lemma_components_joined(path, inner);
    law_parts_of_a_path(front, part, part);
    let deep = path + "/"@ + inner;
    reveal_strlit("/");
    assert(path.len() > 0);
    law_below_is_under(path, inner, path);
    assert(components(path).len() <= components(deep).len());
    assert(components(deep) =~= path_head(path + "/"@) + solid_parts(
        crate::text::segments(path, '/'),
    ) + seq![inner]);
    lemma_head_behind(path);
    assert(components(deep).len() == components(path).len() + 1);
}

proof fn lemma_head_behind(path: Seq<char>)
    requires
        path.len() > 0,
    ensures
        path_head(path + "/"@) == path_head(path),
{
    reveal_strlit("/");
    assert("/"@ =~= seq!['/']);
    let none = Seq::<char>::empty();
    assert(path + "/"@ =~= path + "/"@ + none);
    crate::text::law_cut_at_a_separator(path, none, '/');
    crate::text::lemma_segments_nonempty(path, '/');
    assert((path + "/"@)[0] == path[0]);
    assert(crate::text::segments(path + "/"@, '/')[0] == crate::text::segments(path, '/')[0]);
}

/// Every absolute path lies under the root.
pub proof fn law_all_is_under_the_root(path: Seq<char>)
    requires
        path.len() > 0,
        path[0] == '/',
    ensures
        lies_under(path, "/"@),
{
    reveal_strlit("/");
    reveal_strlit("");
    let root = "/"@;
    let none = Seq::<char>::empty();
    assert(root =~= none + seq!['/'] + none);
    crate::text::law_cut_at_a_separator(none, none, '/');
    assert(none =~= ""@);
    law_parts_of_a_path(none, none, none);
    assert(none + "/"@ + none =~= root);
    assert(components(root) =~= seq!["/"@]);
    assert(components(path)[0] == "/"@);
    assert(components(root) =~= components(path).subrange(0, 1));
}

proof fn lemma_pieces_hold_no_separator(s: Seq<char>, sep: char)
    ensures
        forall|i: int|
            0 <= i < crate::text::segments(s, sep).len() ==> !(#[trigger] crate::text::segments(
                s,
                sep,
            )[i]).contains(sep),
    decreases s.len(),
{
    let pieces = crate::text::segments(s, sep);
    if s.len() > 0 {
        let front = crate::text::segments(s.drop_last(), sep);
        lemma_pieces_hold_no_separator(s.drop_last(), sep);
        crate::text::lemma_segments_nonempty(s.drop_last(), sep);
        assert forall|i: int| 0 <= i < pieces.len() implies !(#[trigger] pieces[i]).contains(sep) by {
            if s.last() != sep && i == front.len() - 1 {
                let was = front[i];
                assert(!was.contains(sep));
                if pieces[i].contains(sep) {
                    let k = choose|k: int| 0 <= k < pieces[i].len() && pieces[i][k] == sep;
                    assert(k < was.len());
                    assert(was[k] == sep);
                }
            } else if i < front.len() {
                assert(pieces[i] == front[i]);
            }
        }
    }
}

proof fn lemma_solid_among(parts: Seq<Seq<char>>, i: int)
    requires
        0 <= i < solid_parts(parts).len(),
    ensures
        exists|j: int| 0 <= j < parts.len() && #[trigger] parts[j] == solid_parts(parts)[i],
    decreases parts.len(),
{
    let front = parts.drop_last();
    if i < solid_parts(front).len() {
        lemma_solid_among(front, i);
        let j = choose|j: int| 0 <= j < front.len() && #[trigger] front[j] == solid_parts(front)[i];
        assert(parts[j] == front[j]);
        assert(solid_parts(parts)[i] == solid_parts(front)[i]);
    } else {
        assert(parts[parts.len() - 1] == solid_parts(parts)[i]);
    }
}

/// No relative path lies under the root.
pub proof fn law_relative_is_not_under_the_root(path: Seq<char>)
    requires
        path.len() == 0 || path[0] != '/',
    ensures
        !lies_under(path, "/"@),
{
    reveal_strlit("/");
    reveal_strlit(".");
    let root = "/"@;
    assert(root[0] == '/');
    assert(components(root)[0] == "/"@);
    let own = components(path);
    if lies_under(path, root) {
        let outer = components(root);
        assert(outer == own.subrange(0, outer.len() as int));
        assert(own[0] == outer[0]);
        let pieces = crate::text::segments(path, '/');
        if path_head(path).len() > 0 {
            assert(own[0] == "."@);
            assert("."@[0] == '.');
            assert(false);
        } else {
            assert(own[0] == solid_parts(pieces)[0]);
            lemma_solid_among(pieces, 0);
            lemma_pieces_hold_no_separator(path, '/');
            let j = choose|j: int| 0 <= j < pieces.len() && #[trigger] pieces[j] == solid_parts(pieces)[0];
            assert(!pieces[j].contains('/'));
            assert("/"@.contains('/'));
        }
    }
}

} // verus!
