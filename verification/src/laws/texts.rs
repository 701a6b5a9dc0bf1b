//! Texts and paths, which everything else is told in.
use vstd::prelude::*;

use crate::number;
use crate::order;
use crate::paths;
use crate::text::{self, CharClass, Text};

verus! {

// ---- Texts

/// The pieces between the occurrences of a character do not hold it, and give the text again
/// where it is put between them.
pub proof fn pieces_make_up_the_text(s: Text, c: char)
    ensures
        text::joined(text::pieces(s, c), seq![c]) == s,
        forall|i: int|
            0 <= i < text::pieces(s, c).len() ==> !(#[trigger] text::pieces(s, c)[i]).contains(c),
    decreases s.len(),
{
    paths::lemma_pieces_without_slash(s, c);
    text::lemma_position(s, c);
    let p = text::position(s, c) as int;
    let all = text::pieces(s, c);
    if p < s.len() {
        let rest = s.skip(p + 1);
        pieces_make_up_the_text(rest, c);
        paths::lemma_pieces_without_slash(rest, c);
        lemma_joined_first(all, seq![c]);
        assert(all.drop_first() =~= text::pieces(rest, c));
        assert(s =~= s.take(p) + seq![c] + rest);
    } else {
        assert(all =~= seq![s]);
    }
}

pub(crate) proof fn lemma_joined_first(parts: Seq<Text>, sep: Text)
    requires
        parts.len() > 1,
    ensures
        text::joined(parts, sep) == parts[0] + sep + text::joined(parts.drop_first(), sep),
    decreases parts.len(),
{
    let rest = parts.drop_first();
    if parts.len() == 2 {
        assert(parts.drop_last() =~= seq![parts[0]]);
        assert(rest =~= seq![parts[1]]);
        assert(text::joined(parts.drop_last(), sep) == parts[0]);
        assert(text::joined(rest, sep) == parts[1]);
        assert(text::joined(parts, sep) =~= parts[0] + sep + parts[1]);
    } else {
        lemma_joined_first(parts.drop_last(), sep);
        assert(parts.drop_last().drop_first() =~= rest.drop_last());
        assert(text::joined(parts, sep) =~= parts[0] + sep + text::joined(rest, sep));
    }
}

/// A text splits at the first occurrence of a character, and not at all without one.
pub proof fn halves_make_up_the_text(s: Text, c: char)
    ensures
        text::halves(s, c) matches Some((before, behind)) ==> s == before + seq![c] + behind
            && !before.contains(c),
        (text::halves(s, c) is None) == !s.contains(c),
{
    text::lemma_position(s, c);
    let p = text::position(s, c) as int;
    if p < s.len() {
        assert(s =~= s.take(p) + seq![c] + s.skip(p + 1));
        assert(s.contains(s[p]));
        if s.take(p).contains(c) {
            let i = choose|i: int| 0 <= i < p && s.take(p)[i] == c;
            assert(s[i] == c);
        }
    } else if s.contains(c) {
        let i = choose|i: int| 0 <= i < s.len() && s[i] == c;
    }
}

/// Stripping cuts a part out of a text that neither begins nor ends with white space, with
/// nothing but white space around it.
pub proof fn stripping_takes_white_space_alone(s: Text)
    ensures
        exists|from: int, to: int|
            0 <= from <= to <= s.len() && text::stripped(s) == #[trigger] s.subrange(from, to) && (
            from < to ==> !text::is_white_space(s[from]) && !text::is_white_space(s[to - 1])) && (
            forall|i: int| 0 <= i < s.len() && !(from <= i < to) ==> text::is_white_space(
                #[trigger] s[i],
            )),
        text::is_white_space(' ') && text::is_white_space('\t') && text::is_white_space('\n')
            && text::is_white_space('\r'),
        forall|c: char| 'a' <= c <= 'z' || 'A' <= c <= 'Z' || '0' <= c <= '9' || c == '/' || c == '-'
            || c == '.' || c == '_' ==> !(#[trigger] text::is_white_space(c)),
{
    let from = lemma_cut_start(s);
    let rest = s.skip(from);
    let to = lemma_cut_end(rest);
    assert(rest.take(to) =~= s.subrange(from, from + to));
    assert forall|i: int| 0 <= i < s.len() && !(from <= i < from + to) implies text::is_white_space(
        #[trigger] s[i],
    ) by {
        if i >= from + to {
            assert(rest[i - from] == s[i]);
        }
    }
    if to > 0 {
        assert(rest[to - 1] == s[from + to - 1]);
        assert(rest[0] == s[from]);
    }
}

proof fn lemma_cut_start(s: Text) -> (from: int)
    ensures
        0 <= from <= s.len(),
        text::trimmed_start(s, CharClass::Whitespace) == s.skip(from),
        from < s.len() ==> !text::is_white_space(s[from]),
        forall|i: int| 0 <= i < from ==> text::is_white_space(#[trigger] s[i]),
    decreases s.len(),
{
    if s.len() > 0 && text::is_white_space(s[0]) {
        let rest = s.drop_first();
        let from = lemma_cut_start(rest);
        assert(rest.skip(from) =~= s.skip(from + 1));
        assert forall|i: int| 0 <= i < from + 1 implies text::is_white_space(#[trigger] s[i]) by {
            if i > 0 {
                assert(rest[i - 1] == s[i]);
            }
        }
        from + 1
    } else {
        assert(s.skip(0) =~= s);
        0
    }
}

proof fn lemma_cut_end(s: Text) -> (to: int)
    ensures
        0 <= to <= s.len(),
        text::trimmed_end(s, CharClass::Whitespace) == s.take(to),
        to > 0 ==> !text::is_white_space(s[to - 1]),
        forall|i: int| to <= i < s.len() ==> text::is_white_space(#[trigger] s[i]),
    decreases s.len(),
{
    if s.len() > 0 && text::is_white_space(s.last()) {
        let rest = s.drop_last();
        let to = lemma_cut_end(rest);
        assert(rest.take(to) =~= s.take(to));
        assert forall|i: int| to <= i < s.len() implies text::is_white_space(#[trigger] s[i]) by {
            if i < rest.len() {
                assert(rest[i] == s[i]);
            }
        }
        to
    } else {
        assert(s.take(s.len() as int) =~= s);
        s.len() as int
    }
}

/// Texts are in the order of their first different characters, and a text comes before what
/// it is the beginning of.
pub proof fn texts_are_ordered_by_their_characters(common: Text, a: char, x: Text, b: char, y: Text)
    requires
        a < b,
    ensures
        order::text_le(common + (seq![a] + x), common + (seq![b] + y)),
        !order::text_le(common + (seq![b] + y), common + (seq![a] + x)),
        order::text_le(common, common + x),
    decreases common.len(),
{
    let l = common + (seq![a] + x);
    let r = common + (seq![b] + y);
    if common.len() == 0 {
        assert(l[0] == a && r[0] == b);
    } else {
        let rest = common.drop_first();
        texts_are_ordered_by_their_characters(rest, a, x, b, y);
        assert(l.drop_first() =~= rest + (seq![a] + x));
        assert(r.drop_first() =~= rest + (seq![b] + y));
        assert((common + x).drop_first() =~= rest + x);
        assert(l[0] == common[0] && r[0] == common[0] && (common + x)[0] == common[0]);
    }
}

/// A count that was printed, with white space around it or without, is read as it was.
pub proof fn counts_read_back(n: u64)
    ensures
        number::read_count(number::decimal(n as nat)) == Ok::<nat, Text>(n as nat),
{
    number::decimal_reads_back(n);
}

// ---- Paths

/// An absolute path takes the place of what it is joined to; a relative one goes below it.
pub proof fn joining_goes_below_or_replaces(base: Text, name: Text)
    ensures
        paths::absolute(name) ==> paths::joined(base, name) == name,
        !paths::absolute(name) && base.len() > 0 ==> paths::lies_under(
            paths::joined(base, name),
            base,
        ),
        paths::lies_under(base, base),
        paths::absolute(name) == (name.len() > 0 && name[0] == '/'),
{
    let b = paths::components(base);
    assert(b.take(b.len() as int) =~= b);
    if !paths::absolute(name) && base.len() > 0 {
        paths::lemma_joined_components(base, name);
        let all = paths::components(paths::joined(base, name));
        assert(all.take(b.len() as int) =~= b);
    }
}

/// Repeated slashes, dots between slashes and a slash at the end make no other path.
pub proof fn paths_are_told_by_their_names(base: Text, name: Text)
    requires
        base.len() > 0,
        base.last() != '/',
        paths::is_entry_name(name),
    ensures
        paths::components(base + seq!['/'] + name) == paths::components(base) + seq![name],
        paths::components(base + seq!['/', '/'] + name) == paths::components(base) + seq![name],
        paths::components(base + seq!['/', '.', '/'] + name) == paths::components(base) + seq![name],
        paths::components(base + seq!['/']) == paths::components(base),
{
    paths::lemma_entry_name_pieces(name);
    let none = Seq::<char>::empty();
    let dot = seq!['.'];
    lemma_below(base, name);
    assert(base + seq!['/'] + name =~= base.push('/') + name);
    lemma_below(base, none);
    assert(base + seq!['/'] =~= base.push('/') + none);
    let slashed = base.push('/') + none;
    assert(slashed =~= base.push('/'));
    lemma_names_of(none);
    assert(paths::components(slashed) =~= paths::components(base));
    lemma_below(slashed, name);
    assert(base + seq!['/', '/'] + name =~= slashed.push('/') + name);
    lemma_below(base, dot);
    let dotted = base.push('/') + dot;
    lemma_names_of(dot);
    assert(paths::components(dotted) =~= paths::components(base));
    lemma_below(dotted, name);
    assert(base + seq!['/', '.', '/'] + name =~= dotted.push('/') + name);
}

proof fn lemma_names_of(piece: Text)
    requires
        piece.len() == 0 || piece == seq!['.'],
    ensures
        paths::names(text::pieces(piece, '/')) == Seq::<Text>::empty(),
{
    text::lemma_position(piece, '/');
    let p = text::position(piece, '/') as int;
    if piece.len() == 1 {
        assert(piece[0] == '.');
    }
    assert(p == piece.len());
    let all = text::pieces(piece, '/');
    assert(all =~= seq![piece]);
    assert(all.drop_last() =~= Seq::empty());
    assert(paths::names(all.drop_last()) =~= Seq::empty());
    assert(paths::names(all) =~= Seq::empty());
}

proof fn lemma_below(base: Text, name: Text)
    requires
        base.len() > 0,
        !paths::absolute(name),
    ensures
        paths::components(base.push('/') + name) == paths::components(base) + paths::names(
            text::pieces(name, '/'),
        ),
{
    let whole = base.push('/') + name;
    paths::lemma_pieces_without_slash(base, '/');
    text::lemma_pieces_joined(base, name, '/');
    paths::lemma_names_add(text::pieces(base, '/'), text::pieces(name, '/'));
    assert(text::pieces(whole, '/')[0] == text::pieces(base, '/')[0]);
    assert(whole[0] == base[0]);
    assert(paths::components(whole) =~= paths::components(base) + paths::names(
        text::pieces(name, '/'),
    ));
}

/// The extension of a file is what follows the last dot of its name, where a name stands
/// before that dot.
pub proof fn extensions_follow_the_last_dot(stem: Text, extension: Text)
    requires
        stem.len() > 0,
        !extension.contains('.'),
    ensures
        paths::suffix(stem + seq!['.'] + extension) == Some(extension),
        paths::suffix(extension) is None,
    decreases extension.len(),
{
    let whole = stem + seq!['.'] + extension;
    if extension.len() == 0 {
        assert(whole.last() == '.');
        assert(extension =~= Seq::empty());
    } else {
        let front = extension.drop_last();
        if front.contains('.') {
            let i = choose|i: int| 0 <= i < front.len() && front[i] == '.';
            assert(extension[i] == '.');
        }
        extensions_follow_the_last_dot(stem, front);
        assert(whole.drop_last() =~= stem + seq!['.'] + front);
        assert(whole.last() == extension.last());
        assert(extension[extension.len() - 1] == extension.last());
        assert(front.push(extension.last()) =~= extension);
    }
}

} // verus!
