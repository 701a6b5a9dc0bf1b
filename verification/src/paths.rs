//! Unix paths as text: joining, taking apart, comparing by components.
use vstd::prelude::*;

use crate::order::{text_not_after, Ranked};
use crate::text::{self, chars_of, push_line, same, slice_of, split, Text};

verus! {

pub open spec fn absolute(p: Text) -> bool {
    p.len() > 0 && p[0] == '/'
}

pub(crate) fn is_absolute(p: &str) -> (r: bool)
    ensures
        r == absolute(p@),
{
    let chars = chars_of(p);
    chars.len() > 0 && chars[0] == '/'
}

/// `base` extended by `name`: an absolute name replaces the base, and a slash
/// goes between them where the base does not end in one.
pub open spec fn joined(base: Text, name: Text) -> Text {
    if absolute(name) {
        name
    } else if base.len() > 0 && base.last() != '/' {
        base.push('/') + name
    } else {
        base + name
    }
}

pub fn join(base: &str, name: &str) -> (r: String)
    ensures
        r@ == joined(base@, name@),
{
    if is_absolute(name) {
        return name.to_owned();
    }
    let chars = chars_of(base);
    let mut r = base.to_owned();
    if chars.len() > 0 && chars[chars.len() - 1] != '/' {
        r.push('/');
    }
    r.append(name);
    r
}

/// The pieces that name an entry: neither empty nor a dot.
pub open spec fn names(pieces: Seq<Text>) -> Seq<Text>
    decreases pieces.len(),
{
    if pieces.len() == 0 {
        Seq::empty()
    } else if pieces.last().len() == 0 || pieces.last() == seq!['.'] {
        names(pieces.drop_last())
    } else {
        names(pieces.drop_last()).push(pieces.last())
    }
}

/// The components of a path: the root of an absolute path, a dot that a
/// relative path begins with, and the names between the slashes.
pub open spec fn components(p: Text) -> Seq<Text> {
    let pieces = text::pieces(p, '/');
    if absolute(p) {
        seq![seq!['/']] + names(pieces)
    } else if pieces[0] == seq!['.'] {
        seq![seq!['.']] + names(pieces)
    } else {
        names(pieces)
    }
}

fn is_dot(s: &str) -> (r: bool)
    ensures
        r == (s@ == seq!['.']),
{
    let chars = chars_of(s);
    let r = chars.len() == 1 && chars[0] == '.';
    proof {
        if r {
            assert(s@ =~= seq!['.']);
        }
    }
    r
}

fn one_char(c: char) -> (r: String)
    ensures
        r@ == seq![c],
{
    let mut r = String::new();
    r.push(c);
    assert(r@ =~= seq![c]);
    r
}

pub(crate) fn path_components(p: &str) -> (r: Vec<String>)
    ensures
        r.deep_view() == components(p@),
{
    let pieces = split(p, '/');
    let ghost all = pieces.deep_view();
    let mut r: Vec<String> = Vec::new();
    assert(all.len() > 0);
    assert(all[0] == pieces@[0]@);
    if is_absolute(p) {
        push_line(&mut r, one_char('/'));
    } else if is_dot(pieces[0].as_str()) {
        push_line(&mut r, one_char('.'));
    }
    let ghost head = r.deep_view();
    proof {
        assert(head + names(all.take(0)) =~= head);
        assert(components(p@) =~= head + names(all));
    }
    let mut i: usize = 0;
    while i < pieces.len()
        invariant
            i <= pieces@.len(),
            all == pieces.deep_view(),
            all.len() == pieces@.len(),
            r.deep_view() == head + names(all.take(i as int)),
        decreases pieces@.len() - i,
    {
        assert(all.take(i + 1).drop_last() =~= all.take(i as int));
        assert(all.take(i + 1).last() == pieces@[i as int]@);
        if !pieces[i].as_str().is_empty() && !is_dot(pieces[i].as_str()) {
            push_line(&mut r, pieces[i].clone());
            assert(r.deep_view() =~= head + names(all.take(i + 1)));
        }
        i += 1;
    }
    assert(all.take(all.len() as int) =~= all);
    r
}

pub(crate) proof fn lemma_pieces_without_slash(s: Text, c: char)
    ensures
        forall|i: int|
            0 <= i < text::pieces(s, c).len() ==> !(#[trigger] text::pieces(s, c)[i]).contains(c),
        text::pieces(s, c).len() > 0,
    decreases s.len(),
{
    text::lemma_position(s, c);
    let p = text::position(s, c) as int;
    if p < s.len() {
        let rest = text::pieces(s.skip(p + 1), c);
        lemma_pieces_without_slash(s.skip(p + 1), c);
        let all = text::pieces(s, c);
        assert forall|i: int| 0 <= i < all.len() implies !(#[trigger] all[i]).contains(c) by {
            if i == 0 {
                assert(all[0] == s.take(p));
            } else {
                assert(all[i] == rest[i - 1]);
            }
        }
    } else {
        assert(text::pieces(s, c)[0] == s);
    }
}

/// Whether a text names one entry of a directory.
pub open spec fn is_entry_name(name: Text) -> bool {
    &&& name.len() > 0
    &&& name != seq!['.']
    &&& !name.contains('/')
}

pub(crate) proof fn lemma_names_add(a: Seq<Text>, b: Seq<Text>)
    ensures
        names(a + b) == names(a) + names(b),
    decreases b.len(),
{
    if b.len() == 0 {
        assert(a + b =~= a);
        assert(names(a) + names(b) =~= names(a));
    } else {
        let front = b.drop_last();
        lemma_names_add(a, front);
        assert((a + b).drop_last() =~= a + front);
        assert((a + b).last() == b.last());
        assert(names(a + b) =~= names(a) + names(b));
    }
}

proof fn lemma_names_are_entry_names(pieces: Seq<Text>)
    requires
        forall|i: int| 0 <= i < pieces.len() ==> !(#[trigger] pieces[i]).contains('/'),
    ensures
        forall|i: int| 0 <= i < names(pieces).len() ==> is_entry_name(#[trigger] names(pieces)[i]),
    decreases pieces.len(),
{
    if pieces.len() > 0 {
        let front = pieces.drop_last();
        assert forall|i: int| 0 <= i < front.len() implies !(#[trigger] front[i]).contains('/') by {
            assert(front[i] == pieces[i]);
        }
        lemma_names_are_entry_names(front);
        assert(pieces[pieces.len() - 1] == pieces.last());
        let all = names(pieces);
        assert forall|i: int| 0 <= i < all.len() implies is_entry_name(#[trigger] all[i]) by {
            if i < names(front).len() {
                assert(all[i] == names(front)[i]);
            }
        }
    }
}

/// The last component, where it names an entry, is an entry's name.
pub(crate) proof fn lemma_last_name(p: Text)
    ensures
        last_name(p) matches Some(name) ==> is_entry_name(name),
{
    let pieces = text::pieces(p, '/');
    lemma_pieces_without_slash(p, '/');
    lemma_names_are_entry_names(pieces);
    let parts = components(p);
    if last_name(p) is Some {
        let all = names(pieces);
        if all.len() > 0 {
            assert(parts.last() == all[all.len() - 1]);
        }
    }
}

/// Joining a relative path to another puts its names behind the other's components.
pub(crate) proof fn lemma_joined_components(base: Text, name: Text)
    requires
        base.len() > 0,
        !absolute(name),
    ensures
        components(joined(base, name)) == components(base) + names(text::pieces(name, '/')),
{
    let whole = joined(base, name);
    let more = text::pieces(name, '/');
    lemma_pieces_without_slash(base, '/');
    lemma_pieces_without_slash(name, '/');
    if base.last() == '/' {
        let front = base.drop_last();
        let none = Seq::<char>::empty();
        assert(base =~= front.push('/') + none);
        assert(whole =~= front.push('/') + name);
        text::lemma_pieces_joined(front, none, '/');
        text::lemma_pieces_joined(front, name, '/');
        assert(text::pieces(none, '/') =~= seq![none]);
        lemma_names_add(text::pieces(front, '/'), seq![none]);
        lemma_names_add(text::pieces(front, '/'), more);
        let last = seq![none];
        assert(last.drop_last() =~= Seq::empty());
        assert(last.last().len() == 0);
        assert(names(last.drop_last()) =~= Seq::empty());
        assert(names(last) =~= Seq::empty());
        lemma_pieces_without_slash(front, '/');
        assert(text::pieces(base, '/')[0] == text::pieces(front, '/')[0]);
        assert(text::pieces(whole, '/')[0] == text::pieces(front, '/')[0]);
        assert(names(text::pieces(base, '/')) =~= names(text::pieces(front, '/')));
    } else {
        text::lemma_pieces_joined(base, name, '/');
        lemma_names_add(text::pieces(base, '/'), more);
        assert(text::pieces(whole, '/')[0] == text::pieces(base, '/')[0]);
    }
    assert(whole[0] == base[0]);
    assert(components(whole) =~= components(base) + names(more));
}

/// An entry's name is a single piece.
pub(crate) proof fn lemma_entry_name_pieces(name: Text)
    requires
        is_entry_name(name),
    ensures
        text::pieces(name, '/') == seq![name],
        names(text::pieces(name, '/')) == seq![name],
{
    text::lemma_position(name, '/');
    let p = text::position(name, '/') as int;
    if p < name.len() {
        assert(name.contains(name[p]));
    }
    let pieces = text::pieces(name, '/');
    assert(pieces =~= seq![name]);
    assert(pieces.drop_last() =~= Seq::empty());
    assert(names(pieces.drop_last()) =~= Seq::empty());
    assert(names(pieces) =~= seq![name]);
}

/// An entry's name is its own and only component.
pub(crate) proof fn lemma_name_components(name: Text)
    requires
        is_entry_name(name),
    ensures
        components(name) == seq![name],
{
    lemma_entry_name_pieces(name);
    if absolute(name) {
        assert(name.contains(name[0]));
    }
}

/// Joining an entry's name to a path adds one component.
pub(crate) proof fn lemma_joined_name(base: Text, name: Text)
    requires
        is_entry_name(name),
    ensures
        components(joined(base, name)) == components(base).push(name),
        parent(joined(base, name)) is Some,
{
    if absolute(name) {
        assert(name.contains(name[0]));
    }
    lemma_name_components(name);
    lemma_entry_name_pieces(name);
    if base.len() == 0 {
        assert(base =~= Seq::<char>::empty());
        assert(joined(base, name) =~= name);
        lemma_empty_components();
    } else {
        lemma_joined_components(base, name);
    }
    assert(components(joined(base, name)) =~= components(base).push(name));
    let parts = components(joined(base, name));
    if parts == seq![seq!['/']] {
        assert(parts.last() == seq!['/']);
        assert(seq!['/'][0] == '/');
        assert(name.contains('/'));
    }
}

/// Two spellings of one path.
pub open spec fn same_path(a: Text, b: Text) -> bool {
    components(a) == components(b)
}

pub(crate) fn paths_match(a: &str, b: &str) -> (r: bool)
    ensures
        r == same_path(a@, b@),
{
    let left = path_components(a);
    let right = path_components(b);
    let r = left.len() == right.len() && leads(&left, &right);
    proof {
        assert(left.deep_view().len() == left@.len());
        assert(right.deep_view().len() == right@.len());
        if left@.len() == right@.len() {
            assert(right.deep_view().take(left@.len() as int) =~= right.deep_view());
        }
    }
    r
}

/// Whether the first components of `path` are those of `base`.
pub open spec fn lies_under(path: Text, base: Text) -> bool {
    let p = components(path);
    let b = components(base);
    b.len() <= p.len() && p.take(b.len() as int) == b
}

fn leads(first: &Vec<String>, whole: &Vec<String>) -> (r: bool)
    ensures
        r == (first@.len() <= whole@.len() && whole.deep_view().take(first@.len() as int)
            == first.deep_view()),
{
    if first.len() > whole.len() {
        return false;
    }
    let mut i: usize = 0;
    while i < first.len()
        invariant
            i <= first@.len() <= whole@.len(),
            forall|j: int| 0 <= j < i ==> first@[j]@ == whole@[j]@,
        decreases first@.len() - i,
    {
        if !same(first[i].as_str(), whole[i].as_str()) {
            proof {
                let k = i as int;
                assert(whole.deep_view().take(first@.len() as int)[k] == whole@[k]@);
                assert(first.deep_view()[k] == first@[k]@);
            }
            return false;
        }
        i += 1;
    }
    assert(whole.deep_view().take(first@.len() as int) =~= first.deep_view());
    true
}

pub(crate) fn path_starts_with(path: &str, base: &str) -> (r: bool)
    ensures
        r == lies_under(path@, base@),
{
    let p = path_components(path);
    let b = path_components(base);
    leads(&b, &p)
}

/// The last component, where it names an entry.
pub open spec fn last_name(p: Text) -> Option<Text> {
    let parts = components(p);
    if parts.len() == 0 || parts.last() == seq!['/'] || parts.last() == seq!['.'] || parts.last()
        == seq!['.', '.'] {
        None
    } else {
        Some(parts.last())
    }
}

pub(crate) fn file_name(p: &str) -> (r: Option<String>)
    ensures
        r.deep_view() == last_name(p@),
{
    let parts = path_components(p);
    assert(parts.deep_view().len() == parts@.len());
    if parts.len() == 0 {
        return None;
    }
    let last = &parts[parts.len() - 1];
    assert(components(p@).last() == last@);
    let chars = chars_of(last.as_str());
    let special = (chars.len() == 1 && (chars[0] == '/' || chars[0] == '.')) || (chars.len() == 2
        && chars[0] == '.' && chars[1] == '.');
    proof {
        if special {
            assert(last@ =~= seq!['/'] || last@ =~= seq!['.'] || last@ =~= seq!['.', '.']);
        } else {
            assert(seq!['.', '.'].len() == 2);
            assert(last@ != seq!['/'] && last@ != seq!['.'] && last@ != seq!['.', '.']);
        }
    }
    if special {
        None
    } else {
        Some(last.clone())
    }
}

/// The shortest beginning of a path that has the components, looked for from a length on and
/// short of the whole path.
pub open spec fn beginning(p: Text, parts: Seq<Text>, from: nat) -> Text
    decreases p.len() - from,
{
    let here = p.take(from as int);
    if from + 1 >= p.len() || components(here) == parts {
        here
    } else {
        beginning(p, parts, from + 1)
    }
}

/// The path without its last component: the text before it, without the slashes and dots at
/// the end of that text. The root and the empty path have none.
pub open spec fn parent(p: Text) -> Option<Text> {
    let parts = components(p);
    if parts.len() == 0 || parts == seq![seq!['/']] {
        None
    } else {
        Some(beginning(p, parts.drop_last(), 0))
    }
}

pub fn parent_of(p: &str) -> (r: Option<String>)
    ensures
        r.deep_view() == parent(p@),
{
    let parts = path_components(p);
    let ghost all = parts.deep_view();
    assert(all.len() == parts@.len());
    if parts.len() == 0 {
        return None;
    }
    if parts.len() == 1 {
        let first = chars_of(parts[0].as_str());
        if first.len() == 1 && first[0] == '/' {
            assert(all[0] =~= seq!['/']);
            assert(all =~= seq![seq!['/']]);
            return None;
        }
        assert(all[0] == parts@[0]@);
    }
    let chars = chars_of(p);
    let ghost wanted = all.drop_last();
    let mut from: usize = 0;
    assert(chars@.len() > 0) by {
        if chars@.len() == 0 {
            assert(p@ =~= Seq::<char>::empty());
            lemma_empty_components();
        }
    }
    loop
        invariant
            from < chars@.len(),
            chars@ == p@,
            all == parts.deep_view(),
            all.len() == parts@.len(),
            all.len() > 0,
            wanted == all.drop_last(),
            beginning(p@, wanted, 0) == beginning(p@, wanted, from as nat),
        ensures
            from < chars@.len(),
            beginning(p@, wanted, 0) == p@.take(from as int),
        decreases chars@.len() - from,
    {
        let here = slice_of(&chars, 0, from);
        assert(here@ =~= p@.take(from as int));
        let found = path_components(here.as_str());
        assert(found.deep_view().len() == found@.len());
        let alike = found.len() == parts.len() - 1 && leads(&found, &parts);
        proof {
            assert(all.take(all.len() - 1) =~= wanted);
            assert(alike == (components(here@) == wanted));
        }
        if from == chars.len() - 1 || alike {
            break;
        }
        from += 1;
    }
    let r = slice_of(&chars, 0, from);
    assert(r@ =~= p@.take(from as int));
    Some(r)
}

proof fn lemma_empty_components()
    ensures
        components(Seq::<char>::empty()) == Seq::<Text>::empty(),
{
    let none = Seq::<char>::empty();
    let last = seq![none];
    assert(text::pieces(none, '/') =~= last);
    assert(last.drop_last() =~= Seq::empty());
    assert(names(last.drop_last()) =~= Seq::empty());
    assert(names(last) =~= Seq::empty());
    assert(seq!['.'].len() == 1);
    assert(components(none) =~= Seq::empty());
}

proof fn lemma_last_slash(p: Text) -> (at: int)
    ensures
        -1 <= at < p.len(),
        at >= 0 ==> p[at] == '/',
        forall|i: int| at < i < p.len() ==> p[i] != '/',
    decreases p.len(),
{
    if p.len() == 0 {
        -1
    } else if p.last() == '/' {
        p.len() - 1
    } else {
        let at = lemma_last_slash(p.drop_last());
        assert forall|i: int| at < i < p.len() implies p[i] != '/' by {
            if i < p.len() - 1 {
                assert(p.drop_last()[i] == p[i]);
            }
        }
        at
    }
}

/// A slash at the end changes no component.
proof fn lemma_trailing_slash(p: Text)
    requires
        p.len() > 0,
    ensures
        components(p.push('/')) == components(p),
{
    let none = Seq::<char>::empty();
    let last = seq![none];
    let whole = p.push('/');
    assert(whole =~= p.push('/') + none);
    text::lemma_pieces_joined(p, none, '/');
    lemma_pieces_without_slash(p, '/');
    assert(text::pieces(none, '/') =~= last);
    lemma_names_add(text::pieces(p, '/'), last);
    assert(last.drop_last() =~= Seq::empty());
    assert(names(last.drop_last()) =~= Seq::empty());
    assert(names(last) =~= Seq::empty());
    assert(text::pieces(whole, '/')[0] == text::pieces(p, '/')[0]);
    assert(whole[0] == p[0]);
    assert(names(text::pieces(whole, '/')) =~= names(text::pieces(p, '/')));
}

/// Some beginning of a path has all of its components but the last.
proof fn lemma_parent_prefix(p: Text) -> (k: int)
    requires
        components(p).len() > 0,
        components(p) != seq![seq!['/']],
    ensures
        0 <= k < p.len(),
        components(p.take(k)) == components(p).drop_last(),
    decreases p.len(),
{
    lemma_empty_components();
    if p.len() == 0 {
        assert(p =~= Seq::<char>::empty());
    }
    let at = lemma_last_slash(p);
    let head = p.take(at + 1);
    let tail = p.skip(at + 1);
    assert(!tail.contains('/')) by {
        if tail.contains('/') {
            let i = choose|i: int| 0 <= i < tail.len() && tail[i] == '/';
            assert(p[at + 1 + i] == '/');
        }
    }
    assert(p.take(0) =~= Seq::<char>::empty());
    if at < 0 {
        assert(tail =~= p);
        if is_entry_name(p) {
            lemma_name_components(p);
        } else {
            assert(p == seq!['.']);
            lemma_dot_pieces();
        }
        assert(components(p).drop_last() =~= Seq::empty());
        0
    } else {
        assert(head.last() == '/');
        assert(p =~= head + tail);
        if absolute(tail) {
            assert(tail.contains(tail[0]));
        }
        assert(joined(head, tail) == p);
        lemma_joined_components(head, tail);
        if is_entry_name(tail) {
            lemma_entry_name_pieces(tail);
            assert(components(p) =~= components(head).push(tail));
            assert(components(p).drop_last() =~= components(head));
            at + 1
        } else if tail.len() > 0 {
            assert(tail == seq!['.']);
            lemma_dot_pieces();
            assert(components(p) =~= components(head));
            let k = lemma_parent_prefix(head);
            assert(head.take(k) =~= p.take(k));
            k
        } else {
            let front = p.drop_last();
            assert(p =~= front.push('/'));
            if front.len() == 0 {
                assert(p =~= seq!['/']);
                lemma_root_components();
            }
            lemma_trailing_slash(front);
            let k = lemma_parent_prefix(front);
            assert(front.take(k) =~= p.take(k));
            k
        }
    }
}

proof fn lemma_dot_pieces()
    ensures
        components(seq!['.']) == seq![seq!['.']],
        names(text::pieces(seq!['.'], '/')) == Seq::<Text>::empty(),
{
    let dot = seq!['.'];
    text::lemma_position(dot, '/');
    let pieces = text::pieces(dot, '/');
    assert(pieces =~= seq![dot]);
    assert(pieces.drop_last() =~= Seq::empty());
    assert(names(pieces.drop_last()) =~= Seq::empty());
    assert(names(pieces) =~= Seq::empty());
    assert(components(dot) =~= seq![dot]);
}

proof fn lemma_root_components()
    ensures
        components(seq!['/']) == seq![seq!['/']],
{
    let none = Seq::<char>::empty();
    let root = seq!['/'];
    assert(root =~= none.push('/') + none);
    text::lemma_pieces_joined(none, none, '/');
    let pieces = text::pieces(root, '/');
    assert(text::pieces(none, '/') =~= seq![none]);
    lemma_names_add(seq![none], seq![none]);
    let last = seq![none];
    assert(last.drop_last() =~= Seq::empty());
    assert(names(last.drop_last()) =~= Seq::empty());
    assert(names(last) =~= Seq::empty());
    assert(names(pieces) =~= Seq::empty());
    assert(components(root) =~= seq![root]);
}

proof fn lemma_beginning(p: Text, parts: Seq<Text>, from: nat, k: int)
    requires
        from <= k < p.len(),
        components(p.take(k)) == parts,
    ensures
        components(beginning(p, parts, from)) == parts,
        beginning(p, parts, from).len() <= k,
        beginning(p, parts, from) == p.take(beginning(p, parts, from).len() as int),
        forall|i: int|
            from <= i < beginning(p, parts, from).len() ==> components(#[trigger] p.take(i))
                != parts,
    decreases k - from,
{
    if components(p.take(from as int)) != parts {
        if from == k {
        } else {
            lemma_beginning(p, parts, from + 1, k);
        }
    }
}

/// A path whose text has nothing at its end that could be left out: no shorter beginning has
/// the same components. Resolved paths are like that.
pub open spec fn is_tidy(p: Text) -> bool {
    forall|i: int| 0 <= i < p.len() ==> components(#[trigger] p.take(i)) != components(p)
}

/// The parent of a path is the shortest beginning of its text that has all of its components
/// but the last.
pub proof fn parents_lack_the_last_component(p: Text)
    ensures
        parent(p) matches Some(q) ==> {
            &&& components(q) == components(p).drop_last()
            &&& q.len() < p.len()
            &&& q == p.take(q.len() as int)
            &&& is_tidy(q)
        },
{
    if parent(p) is Some {
        let parts = components(p).drop_last();
        let k = lemma_parent_prefix(p);
        lemma_beginning(p, parts, 0, k);
        let q = beginning(p, parts, 0);
        assert forall|i: int| 0 <= i < q.len() implies components(#[trigger] q.take(i))
            != components(q) by {
            assert(q.take(i) =~= p.take(i));
        }
    }
}

/// The parent of an entry of a directory is the directory, spelled as it was.
pub proof fn the_parent_of_an_entry_is_its_directory(dir: Text, name: Text)
    requires
        is_tidy(dir),
        is_entry_name(name),
    ensures
        parent(joined(dir, name)) == Some(dir),
{
    let whole = joined(dir, name);
    if absolute(name) {
        assert(name.contains(name[0]));
    }
    lemma_joined_name(dir, name);
    assert(whole.take(dir.len() as int) =~= dir);
    assert(components(whole).drop_last() =~= components(dir));
    lemma_beginning(whole, components(dir), 0, dir.len() as int);
    let q = beginning(whole, components(dir), 0);
    if q.len() < dir.len() {
        assert(dir.take(q.len() as int) =~= whole.take(q.len() as int));
        assert(components(dir.take(q.len() as int)) != components(dir));
    }
    assert(q =~= dir);
}

/// What follows the last dot of a name, where something precedes that dot.
pub open spec fn suffix(name: Text) -> Option<Text>
    decreases name.len(),
{
    if name.len() == 0 {
        None
    } else if name.last() == '.' {
        if name.len() == 1 {
            None
        } else {
            Some(Seq::empty())
        }
    } else {
        match suffix(name.drop_last()) {
            None => None,
            Some(s) => Some(s.push(name.last())),
        }
    }
}

/// The extension of the file that a path names.
pub open spec fn extension(p: Text) -> Option<Text> {
    match last_name(p) {
        None => None,
        Some(name) => suffix(name),
    }
}

pub(crate) fn file_extension(p: &str) -> (r: Option<String>)
    ensures
        r.deep_view() == extension(p@),
{
    let name = match file_name(p) {
        None => {
            return None;
        },
        Some(name) => name,
    };
    let chars = chars_of(name.as_str());
    let mut i: usize = chars.len();
    let ghost all = chars@;
    assert(all.take(all.len() as int) =~= all);
    assert(all.skip(all.len() as int) =~= Seq::<char>::empty());
    proof {
        if let Some(s) = suffix(all) {
            assert(s + Seq::<char>::empty() =~= s);
        }
    }
    while i > 0 && chars[i - 1] != '.'
        invariant
            all == chars@,
            all == name@,
            i <= all.len(),
            extension(p@) == suffix(all),
            match suffix(all.take(i as int)) {
                None => suffix(all) is None,
                Some(s) => suffix(all) == Some(s + all.skip(i as int)),
            },
        decreases i,
    {
        proof {
            assert(all.take(i as int).drop_last() =~= all.take(i - 1));
            if let Some(s) = suffix(all.take(i - 1)) {
                assert(s.push(all[i - 1]) + all.skip(i as int) =~= s + all.skip(i - 1));
            }
        }
        i -= 1;
    }
    if i <= 1 {
        assert(all.take(0).len() == 0);
        return None;
    }
    assert(Seq::<char>::empty() + all.skip(i as int) =~= all.skip(i as int));
    assert(all.skip(i as int) =~= all.subrange(i as int, all.len() as int));
    Some(slice_of(&chars, i, chars.len()))
}

// ---- The order of paths

/// The root comes first, then a leading dot, then the parent, then names.
pub open spec fn component_rank(c: Text) -> int {
    if c == seq!['/'] {
        0
    } else if c == seq!['.'] {
        1
    } else if c == seq!['.', '.'] {
        2
    } else {
        3
    }
}

pub open spec fn component_le(a: Text, b: Text) -> bool {
    if component_rank(a) != component_rank(b) {
        component_rank(a) < component_rank(b)
    } else {
        crate::order::text_le(a, b)
    }
}

pub open spec fn components_le(a: Seq<Text>, b: Seq<Text>) -> bool
    decreases a.len(),
{
    if a.len() == 0 {
        true
    } else if b.len() == 0 {
        false
    } else if a[0] != b[0] {
        component_le(a[0], b[0])
    } else {
        components_le(a.drop_first(), b.drop_first())
    }
}

/// Paths by their components.
pub open spec fn path_le(a: Text, b: Text) -> bool {
    components_le(components(a), components(b))
}

fn rank(c: &str) -> (r: u8)
    ensures
        r == component_rank(c@),
{
    let chars = chars_of(c);
    assert(seq!['.', '.'].len() == 2);
    if chars.len() == 1 && chars[0] == '/' {
        assert(c@ =~= seq!['/']);
        0
    } else if chars.len() == 1 && chars[0] == '.' {
        assert(c@ =~= seq!['.']);
        1
    } else if chars.len() == 2 && chars[0] == '.' && chars[1] == '.' {
        assert(c@ =~= seq!['.', '.']);
        2
    } else {
        3
    }
}

pub(crate) fn path_not_after(a: &str, b: &str) -> (r: bool)
    ensures
        r == path_le(a@, b@),
{
    let left = path_components(a);
    let right = path_components(b);
    let ghost l = left.deep_view();
    let ghost m = right.deep_view();
    let mut i: usize = 0;
    assert(l.skip(0) =~= l && m.skip(0) =~= m);
    while i < left.len() && i < right.len() && same(left[i].as_str(), right[i].as_str())
        invariant
            l == left.deep_view(),
            m == right.deep_view(),
            l.len() == left@.len(),
            m.len() == right@.len(),
            i <= l.len(),
            i <= m.len(),
            path_le(a@, b@) == components_le(l.skip(i as int), m.skip(i as int)),
        decreases l.len() - i,
    {
        assert(l.skip(i as int)[0] == left@[i as int]@);
        assert(m.skip(i as int)[0] == right@[i as int]@);
        assert(l.skip(i as int).drop_first() =~= l.skip(i + 1));
        assert(m.skip(i as int).drop_first() =~= m.skip(i + 1));
        i += 1;
    }
    if i == left.len() {
        true
    } else if i == right.len() {
        false
    } else {
        assert(l.skip(i as int)[0] == left@[i as int]@);
        assert(m.skip(i as int)[0] == right@[i as int]@);
        let x = rank(left[i].as_str());
        let y = rank(right[i].as_str());
        if x != y {
            x < y
        } else {
            text_not_after(left[i].as_str(), right[i].as_str())
        }
    }
}

proof fn lemma_components_total(a: Seq<Text>, b: Seq<Text>)
    ensures
        components_le(a, b) || components_le(b, a),
    decreases a.len(),
{
    if a.len() > 0 && b.len() > 0 {
        if a[0] == b[0] {
            lemma_components_total(a.drop_first(), b.drop_first());
        } else {
            crate::order::text_le_total(a[0], b[0]);
        }
    }
}

proof fn lemma_components_transitive(a: Seq<Text>, b: Seq<Text>, c: Seq<Text>)
    requires
        components_le(a, b),
        components_le(b, c),
    ensures
        components_le(a, c),
    decreases a.len(),
{
    if a.len() > 0 && b.len() > 0 && c.len() > 0 {
        if a[0] == b[0] && b[0] == c[0] {
            lemma_components_transitive(a.drop_first(), b.drop_first(), c.drop_first());
        } else if a[0] != b[0] && b[0] != c[0] {
            if component_rank(a[0]) == component_rank(b[0]) && component_rank(b[0])
                == component_rank(c[0]) {
                crate::order::text_le_transitive(a[0], b[0], c[0]);
            }
            if a[0] == c[0] {
                crate::order::text_le_antisymmetric(a[0], b[0]);
            }
        }
    }
}

pub proof fn path_le_total(a: Text, b: Text)
    ensures
        path_le(a, b) || path_le(b, a),
{
    lemma_components_total(components(a), components(b));
}

pub proof fn path_le_transitive(a: Text, b: Text, c: Text)
    requires
        path_le(a, b),
        path_le(b, c),
    ensures
        path_le(a, c),
{
    lemma_components_transitive(components(a), components(b), components(c));
}

/// A list of paths is sorted as paths.
impl Ranked for String {
    open spec fn le(a: Text, b: Text) -> bool {
        path_le(a, b)
    }

    proof fn le_is_total(a: Text, b: Text) {
        path_le_total(a, b);
    }

    proof fn le_is_transitive(a: Text, b: Text, c: Text) {
        path_le_transitive(a, b, c);
    }

    fn not_after(&self, other: &Self) -> (r: bool) {
        path_not_after(self.as_str(), other.as_str())
    }
}

} // verus!
