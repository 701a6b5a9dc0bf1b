//! Text as a sequence of characters: searching, splitting, trimming, joining.
use vstd::prelude::*;

verus! {

/// The characters of a string, which is what every contract speaks of.
pub type Text = Seq<char>;

/// `String::push` of std: the character goes behind what the string holds.
pub assume_specification[ String::push ](string: &mut String, ch: char)
    ensures
        final(string)@ == old(string)@.push(ch),
;

/// A failure, told to the user by its message.
#[derive(Debug, Clone)]
pub struct Error {
    pub message: String,
}

impl View for Error {
    type V = Text;

    open spec fn view(&self) -> Text {
        self.message@
    }
}

/// A result by its views: the value on success, the message on failure.
pub open spec fn outcome<T: DeepView>(r: Result<T, Error>) -> Result<T::V, Text> {
    match r {
        Ok(value) => Ok(value.deep_view()),
        Err(error) => Err(error@),
    }
}

/// Why an action was refused, if it was.
pub open spec fn refusal(r: Result<(), Error>) -> Option<Text> {
    match r {
        Ok(()) => None,
        Err(error) => Some(error@),
    }
}

/// The first refusal that `f` gives among the elements.
pub open spec fn first_refusal<A>(s: Seq<A>, f: spec_fn(A) -> Option<Text>) -> Option<Text>
    decreases s.len(),
{
    if s.len() == 0 {
        None
    } else if f(s[0]) is Some {
        f(s[0])
    } else {
        first_refusal(s.drop_first(), f)
    }
}

/// Where each element is let pass, all are.
pub(crate) proof fn lemma_none_refused<A>(s: Seq<A>, f: spec_fn(A) -> Option<Text>)
    requires
        forall|i: int| 0 <= i < s.len() ==> f(#[trigger] s[i]) is None,
    ensures
        first_refusal(s, f) is None,
    decreases s.len(),
{
    if s.len() > 0 {
        let rest = s.drop_first();
        assert forall|i: int| 0 <= i < rest.len() implies f(#[trigger] rest[i]) is None by {
            assert(rest[i] == s[i + 1]);
        }
        lemma_none_refused(rest, f);
    }
}

/// What is refused alike, element by element, is refused alike.
pub(crate) proof fn lemma_refused_alike<A>(
    s: Seq<A>,
    f: spec_fn(A) -> Option<Text>,
    g: spec_fn(A) -> Option<Text>,
)
    requires
        forall|i: int| 0 <= i < s.len() ==> f(#[trigger] s[i]) == g(s[i]),
    ensures
        first_refusal(s, f) == first_refusal(s, g),
    decreases s.len(),
{
    if s.len() > 0 {
        let rest = s.drop_first();
        assert(f(s[0]) == g(s[0]));
        assert forall|i: int| 0 <= i < rest.len() implies f(#[trigger] rest[i]) == g(rest[i]) by {
            assert(rest[i] == s[i + 1]);
        }
        lemma_refused_alike(rest, f, g);
    }
}

/// The error that tells `message`.
pub(crate) fn fail(message: String) -> (r: Error)
    ensures
        r@ == message@,
{
    Error { message }
}

/// Whether two strings hold the same characters.
pub(crate) fn same(a: &str, b: &str) -> (r: bool)
    ensures
        r == (a@ == b@),
{
    let left = chars_of(a);
    let right = chars_of(b);
    if left.len() != right.len() {
        return false;
    }
    let mut i: usize = 0;
    while i < left.len()
        invariant
            left@ == a@,
            right@ == b@,
            left@.len() == right@.len(),
            i <= left@.len(),
            forall|j: int| 0 <= j < i ==> left@[j] == right@[j],
        decreases left@.len() - i,
    {
        if left[i] != right[i] {
            return false;
        }
        i += 1;
    }
    assert(a@ =~= b@);
    true
}

/// The characters of `s` in a vector.
pub(crate) fn chars_of(s: &str) -> (r: Vec<char>)
    ensures
        r@ == s@,
{
    let mut r: Vec<char> = Vec::new();
    for c in it: s.chars()
        invariant
            r@ == s@.take(it.index()),
            it.seq() == s@,
    {
        r.push(c);
        assert(s@.take(it.index() + 1) =~= s@.take(it.index()).push(c));
    }
    assert(s@.take(s@.len() as int) =~= s@);
    r
}

/// The string made of the characters from `from` up to `to`.
pub(crate) fn slice_of(chars: &Vec<char>, from: usize, to: usize) -> (r: String)
    requires
        from <= to <= chars@.len(),
    ensures
        r@ == chars@.subrange(from as int, to as int),
{
    let mut r = String::new();
    let mut i: usize = from;
    while i < to
        invariant
            from <= i <= to <= chars@.len(),
            r@ == chars@.subrange(from as int, i as int),
        decreases to - i,
    {
        r.push(chars[i]);
        assert(chars@.subrange(from as int, i + 1) =~= chars@.subrange(from as int, i as int).push(
            chars@[i as int],
        ));
        i += 1;
    }
    r
}

// ---- Joining

pub(crate) fn cat2(a: &str, b: &str) -> (r: String)
    ensures
        r@ == a@ + b@,
{
    let mut r = a.to_owned();
    r.append(b);
    r
}

pub(crate) fn cat3(a: &str, b: &str, c: &str) -> (r: String)
    ensures
        r@ == a@ + b@ + c@,
{
    let mut r = cat2(a, b);
    r.append(c);
    r
}

pub(crate) fn cat4(a: &str, b: &str, c: &str, d: &str) -> (r: String)
    ensures
        r@ == a@ + b@ + c@ + d@,
{
    let mut r = cat3(a, b, c);
    r.append(d);
    r
}

pub(crate) fn cat5(a: &str, b: &str, c: &str, d: &str, e: &str) -> (r: String)
    ensures
        r@ == a@ + b@ + c@ + d@ + e@,
{
    let mut r = cat4(a, b, c, d);
    r.append(e);
    r
}

pub(crate) fn cat6(a: &str, b: &str, c: &str, d: &str, e: &str, f: &str) -> (r: String)
    ensures
        r@ == a@ + b@ + c@ + d@ + e@ + f@,
{
    let mut r = cat5(a, b, c, d, e);
    r.append(f);
    r
}

/// The parts one after the other, with `sep` between neighbours.
pub open spec fn joined(parts: Seq<Text>, sep: Text) -> Text
    decreases parts.len(),
{
    if parts.len() == 0 {
        Seq::empty()
    } else if parts.len() == 1 {
        parts[0]
    } else {
        joined(parts.drop_last(), sep) + sep + parts.last()
    }
}

pub(crate) fn join(parts: &Vec<String>, sep: &str) -> (r: String)
    ensures
        r@ == joined(parts.deep_view(), sep@),
{
    let mut r = String::new();
    let mut i: usize = 0;
    let ghost all = parts.deep_view();
    while i < parts.len()
        invariant
            i <= parts@.len(),
            all == parts.deep_view(),
            all.len() == parts@.len(),
            r@ == joined(all.take(i as int), sep@),
        decreases parts@.len() - i,
    {
        if i > 0 {
            r.append(sep);
        }
        r.append(parts[i].as_str());
        proof {
            assert(all.take(i + 1).drop_last() =~= all.take(i as int));
            assert(all.take(i + 1).last() == parts@[i as int]@);
            if i == 0 {
                assert(r@ =~= parts@[0]@);
            }
        }
        i += 1;
    }
    assert(all.take(all.len() as int) =~= all);
    r
}

// ---- Lists of lines

/// A line where `condition` holds, and none where it does not.
pub open spec fn only_if(condition: bool, line: Text) -> Seq<Text> {
    if condition {
        seq![line]
    } else {
        Seq::empty()
    }
}

/// What `f` gives for each element, one list after the other.
pub open spec fn flat_map<A>(s: Seq<A>, f: spec_fn(A) -> Seq<Text>) -> Seq<Text>
    decreases s.len(),
{
    if s.len() == 0 {
        Seq::empty()
    } else {
        flat_map(s.drop_last(), f) + f(s.last())
    }
}

pub(crate) proof fn lemma_flat_map_step<A>(s: Seq<A>, f: spec_fn(A) -> Seq<Text>, i: int)
    requires
        0 <= i < s.len(),
    ensures
        flat_map(s.take(i + 1), f) == flat_map(s.take(i), f) + f(s[i]),
{
    assert(s.take(i + 1).drop_last() =~= s.take(i));
}

pub(crate) proof fn lemma_flat_map_alike<A>(
    s: Seq<A>,
    f: spec_fn(A) -> Seq<Text>,
    g: spec_fn(A) -> Seq<Text>,
)
    requires
        forall|i: int| 0 <= i < s.len() ==> f(#[trigger] s[i]) == g(s[i]),
    ensures
        flat_map(s, f) == flat_map(s, g),
    decreases s.len(),
{
    if s.len() > 0 {
        let front = s.drop_last();
        assert forall|i: int| 0 <= i < front.len() implies f(#[trigger] front[i]) == g(front[i]) by {
            assert(front[i] == s[i]);
        }
        lemma_flat_map_alike(front, f, g);
        assert(s.last() == s[s.len() - 1]);
    }
}

/// What comes of one element is among what comes of all.
pub(crate) proof fn lemma_flat_map_contains<A>(
    s: Seq<A>,
    f: spec_fn(A) -> Seq<Text>,
    i: int,
    line: Text,
)
    requires
        0 <= i < s.len(),
        f(s[i]).contains(line),
    ensures
        flat_map(s, f).contains(line),
    decreases s.len(),
{
    let front = flat_map(s.drop_last(), f);
    let all = flat_map(s, f);
    if i < s.len() - 1 {
        lemma_flat_map_contains(s.drop_last(), f, i, line);
        let k = choose|k: int| 0 <= k < front.len() && front[k] == line;
        assert(all[k] == line);
    } else {
        let part = f(s[i]);
        let k = choose|k: int| 0 <= k < part.len() && part[k] == line;
        assert(all[front.len() + k] == line);
    }
}

/// Nothing comes of all elements just where nothing comes of each.
pub(crate) proof fn lemma_flat_map_empty<A>(s: Seq<A>, f: spec_fn(A) -> Seq<Text>)
    ensures
        (flat_map(s, f).len() == 0) == (forall|i: int|
            0 <= i < s.len() ==> f(#[trigger] s[i]).len() == 0),
    decreases s.len(),
{
    if s.len() > 0 {
        let front = s.drop_last();
        lemma_flat_map_empty(front, f);
        assert(s.last() == s[s.len() - 1]);
        if flat_map(s, f).len() == 0 {
            assert forall|i: int| 0 <= i < s.len() implies f(#[trigger] s[i]).len() == 0 by {
                if i < front.len() {
                    assert(front[i] == s[i]);
                }
            }
        } else if flat_map(front, f).len() > 0 {
            let i = choose|i: int| 0 <= i < front.len() && f(#[trigger] front[i]).len() != 0;
            assert(s[i] == front[i]);
        }
    }
}

pub(crate) fn push_line(lines: &mut Vec<String>, line: String)
    ensures
        final(lines).deep_view() == old(lines).deep_view().push(line@),
{
    lines.push(line);
    assert(lines.deep_view() =~= old(lines).deep_view().push(line@));
}

pub(crate) fn push_lines(lines: &mut Vec<String>, more: Vec<String>)
    ensures
        final(lines).deep_view() == old(lines).deep_view() + more.deep_view(),
{
    let mut more = more;
    let ghost added = more.deep_view();
    lines.append(&mut more);
    assert(lines.deep_view() =~= old(lines).deep_view() + added);
}

// ---- Optional texts

pub(crate) fn same_option(a: &Option<String>, b: &Option<String>) -> (r: bool)
    ensures
        r == (a.deep_view() == b.deep_view()),
{
    match (a, b) {
        (Some(x), Some(y)) => same(x.as_str(), y.as_str()),
        (None, None) => true,
        _ => false,
    }
}

/// The text of an optional field, empty where it is absent.
pub open spec fn or_empty(value: Option<Text>) -> Text {
    match value {
        Some(text) => text,
        None => Seq::empty(),
    }
}

// ---- Quoting

/// A text as it is shown for debugging, in quotes: what `{:?}` of std's formatting gives.
pub uninterp spec fn debug_text(s: Seq<char>) -> Seq<char>;

/// Formats a string with `{:?}`. That the result depends on the string alone is all that
/// is claimed.
#[verifier::external_body]
pub(crate) fn debug_of(s: &str) -> (r: String)
    ensures
        r@ == debug_text(s@),
{
    format!("{:?}", s)
}

// ---- Classes of characters

/// A set of characters that trimming removes.
pub enum CharClass {
    /// Unicode white space.
    Whitespace,
    /// The characters that no fork name begins or ends with.
    NameEdge,
    /// The markers that systemd allows before an executable.
    ExecMarker,
}

/// The characters with Unicode's White_Space property.
pub open spec fn is_white_space(c: char) -> bool {
    ||| '\u{9}' <= c <= '\u{d}'
    ||| c == ' '
    ||| c == '\u{85}'
    ||| c == '\u{a0}'
    ||| c == '\u{1680}'
    ||| '\u{2000}' <= c <= '\u{200a}'
    ||| c == '\u{2028}'
    ||| c == '\u{2029}'
    ||| c == '\u{202f}'
    ||| c == '\u{205f}'
    ||| c == '\u{3000}'
}

pub open spec fn is_ascii_alphanumeric(c: char) -> bool {
    'a' <= c <= 'z' || 'A' <= c <= 'Z' || '0' <= c <= '9'
}

pub(crate) fn ascii_alphanumeric(c: char) -> (r: bool)
    ensures
        r == is_ascii_alphanumeric(c),
{
    ('a' <= c && c <= 'z') || ('A' <= c && c <= 'Z') || ('0' <= c && c <= '9')
}

impl CharClass {
    pub open spec fn holds(self, c: char) -> bool {
        match self {
            CharClass::Whitespace => is_white_space(c),
            CharClass::NameEdge => c == '.' || c == '-' || c == '_',
            CharClass::ExecMarker => c == '-' || c == '@' || c == '+' || c == '!' || c == ':',
        }
    }

    pub(crate) fn test(&self, c: char) -> (r: bool)
        ensures
            r == self.holds(c),
    {
        match self {
            CharClass::Whitespace => ('\u{9}' <= c && c <= '\u{d}') || c == ' ' || c == '\u{85}'
                || c == '\u{a0}' || c == '\u{1680}' || ('\u{2000}' <= c && c <= '\u{200a}') || c
                == '\u{2028}' || c == '\u{2029}' || c == '\u{202f}' || c == '\u{205f}' || c
                == '\u{3000}',
            CharClass::NameEdge => c == '.' || c == '-' || c == '_',
            CharClass::ExecMarker => c == '-' || c == '@' || c == '+' || c == '!' || c == ':',
        }
    }
}

// ---- Trimming

pub open spec fn trimmed_start(s: Text, class: CharClass) -> Text
    decreases s.len(),
{
    if s.len() > 0 && class.holds(s[0]) {
        trimmed_start(s.drop_first(), class)
    } else {
        s
    }
}

pub open spec fn trimmed_end(s: Text, class: CharClass) -> Text
    decreases s.len(),
{
    if s.len() > 0 && class.holds(s.last()) {
        trimmed_end(s.drop_last(), class)
    } else {
        s
    }
}

/// `s` without the characters of `class` at its two ends.
pub open spec fn trimmed(s: Text, class: CharClass) -> Text {
    trimmed_end(trimmed_start(s, class), class)
}

/// `s` without the white space at its two ends.
pub open spec fn stripped(s: Text) -> Text {
    trimmed(s, CharClass::Whitespace)
}

proof fn lemma_trimmed_start(s: Text, class: CharClass) -> (from: int)
    ensures
        0 <= from <= s.len(),
        trimmed_start(s, class) == s.skip(from),
        from < s.len() ==> !class.holds(s[from]),
    decreases s.len(),
{
    if s.len() > 0 && class.holds(s[0]) {
        let from = lemma_trimmed_start(s.drop_first(), class);
        assert(s.drop_first().skip(from) =~= s.skip(from + 1));
        from + 1
    } else {
        assert(s.skip(0) =~= s);
        0
    }
}

proof fn lemma_trimmed_end(s: Text, class: CharClass) -> (to: int)
    ensures
        0 <= to <= s.len(),
        trimmed_end(s, class) == s.take(to),
        to > 0 ==> !class.holds(s[to - 1]),
    decreases s.len(),
{
    if s.len() > 0 && class.holds(s.last()) {
        let to = lemma_trimmed_end(s.drop_last(), class);
        assert(s.drop_last().take(to) =~= s.take(to));
        to
    } else {
        assert(s.take(s.len() as int) =~= s);
        s.len() as int
    }
}

/// Trimming cuts out a part that neither begins nor ends with the class.
pub(crate) proof fn lemma_trimmed(s: Text, class: CharClass) -> (bounds: (int, int))
    ensures
        0 <= bounds.0 <= bounds.1 <= s.len(),
        trimmed(s, class) == s.subrange(bounds.0, bounds.1),
        bounds.0 < bounds.1 ==> !class.holds(s[bounds.0]) && !class.holds(s[bounds.1 - 1]),
{
    let from = lemma_trimmed_start(s, class);
    let rest = s.skip(from);
    let to = lemma_trimmed_end(rest, class);
    assert(rest.take(to) =~= s.subrange(from, from + to));
    (from, from + to)
}

fn start_bound(chars: &Vec<char>, class: &CharClass) -> (r: usize)
    ensures
        r <= chars@.len(),
        trimmed_start(chars@, *class) == chars@.skip(r as int),
{
    let mut i: usize = 0;
    assert(chars@.skip(0) =~= chars@);
    while i < chars.len() && class.test(chars[i])
        invariant
            i <= chars@.len(),
            trimmed_start(chars@, *class) == trimmed_start(chars@.skip(i as int), *class),
        decreases chars@.len() - i,
    {
        assert(chars@.skip(i as int).drop_first() =~= chars@.skip(i + 1));
        i += 1;
    }
    i
}

fn end_bound(chars: &Vec<char>, from: usize, class: &CharClass) -> (r: usize)
    requires
        from <= chars@.len(),
    ensures
        from <= r <= chars@.len(),
        trimmed_end(chars@.skip(from as int), *class) == chars@.subrange(from as int, r as int),
{
    let mut i: usize = chars.len();
    assert(chars@.skip(from as int) =~= chars@.subrange(from as int, i as int));
    while i > from && class.test(chars[i - 1])
        invariant
            from <= i <= chars@.len(),
            trimmed_end(chars@.skip(from as int), *class) == trimmed_end(
                chars@.subrange(from as int, i as int),
                *class,
            ),
        decreases i,
    {
        assert(chars@.subrange(from as int, i as int).drop_last() =~= chars@.subrange(
            from as int,
            i - 1,
        ));
        i -= 1;
    }
    i
}

pub(crate) fn trim_start(s: &str, class: CharClass) -> (r: String)
    ensures
        r@ == trimmed_start(s@, class),
{
    let chars = chars_of(s);
    let from = start_bound(&chars, &class);
    assert(chars@.skip(from as int) =~= chars@.subrange(from as int, chars@.len() as int));
    slice_of(&chars, from, chars.len())
}

pub(crate) fn trim(s: &str, class: CharClass) -> (r: String)
    ensures
        r@ == trimmed(s@, class),
{
    let chars = chars_of(s);
    let from = start_bound(&chars, &class);
    let to = end_bound(&chars, from, &class);
    slice_of(&chars, from, to)
}

pub(crate) fn strip(s: &str) -> (r: String)
    ensures
        r@ == stripped(s@),
{
    trim(s, CharClass::Whitespace)
}

// ---- Searching and splitting

/// The position of the first `c`, the length of `s` where there is none.
pub open spec fn position(s: Text, c: char) -> nat
    decreases s.len(),
{
    if s.len() == 0 || s[0] == c {
        0
    } else {
        1 + position(s.drop_first(), c)
    }
}

pub proof fn lemma_position(s: Text, c: char)
    ensures
        position(s, c) <= s.len(),
        forall|i: int| 0 <= i < position(s, c) ==> s[i] != c,
        position(s, c) < s.len() ==> s[position(s, c) as int] == c,
    decreases s.len(),
{
    if s.len() > 0 && s[0] != c {
        lemma_position(s.drop_first(), c);
        assert forall|i: int| 0 <= i < position(s, c) implies s[i] != c by {
            if i > 0 {
                assert(s.drop_first()[i - 1] == s[i]);
            }
        }
    }
}

/// The first position is the only one with the character there and not before.
pub(crate) proof fn lemma_position_unique(s: Text, c: char, p: int)
    requires
        0 <= p <= s.len(),
        forall|i: int| 0 <= i < p ==> s[i] != c,
        p < s.len() ==> s[p] == c,
    ensures
        position(s, c) == p,
{
    lemma_position(s, c);
    if position(s, c) < p {
        assert(s[position(s, c) as int] == c);
    }
}

fn position_from(chars: &Vec<char>, from: usize, c: char) -> (r: usize)
    requires
        from <= chars@.len(),
    ensures
        from <= r <= chars@.len(),
        r - from == position(chars@.skip(from as int), c),
{
    let mut i: usize = from;
    while i < chars.len() && chars[i] != c
        invariant
            from <= i <= chars@.len(),
            forall|j: int| from <= j < i ==> chars@[j] != c,
        decreases chars@.len() - i,
    {
        i += 1;
    }
    proof {
        lemma_position_unique(chars@.skip(from as int), c, i - from);
    }
    i
}

/// What stands before and behind the first `c`.
pub open spec fn halves(s: Text, c: char) -> Option<(Text, Text)> {
    let p = position(s, c) as int;
    if p < s.len() {
        Some((s.take(p), s.skip(p + 1)))
    } else {
        None
    }
}

pub(crate) fn split_once(s: &str, c: char) -> (r: Option<(String, String)>)
    ensures
        r.deep_view() == halves(s@, c),
{
    let chars = chars_of(s);
    assert(chars@.skip(0) =~= chars@);
    let p = position_from(&chars, 0, c);
    if p < chars.len() {
        assert(chars@.subrange(0, p as int) =~= s@.take(p as int));
        assert(chars@.subrange(p + 1, chars@.len() as int) =~= s@.skip(p + 1));
        Some((slice_of(&chars, 0, p), slice_of(&chars, p + 1, chars.len())))
    } else {
        None
    }
}

/// The pieces of `s` between the occurrences of `c`, empty ones among them.
pub open spec fn pieces(s: Text, c: char) -> Seq<Text>
    decreases s.len(),
{
    let p = position(s, c) as int;
    if p < s.len() {
        seq![s.take(p)] + pieces(s.skip(p + 1), c)
    } else {
        seq![s]
    }
}

/// What follows a separator adds its own pieces.
pub(crate) proof fn lemma_pieces_joined(a: Text, b: Text, c: char)
    ensures
        pieces(a.push(c) + b, c) == pieces(a, c) + pieces(b, c),
    decreases a.len(),
{
    let whole = a.push(c) + b;
    lemma_position(a, c);
    let p = position(a, c) as int;
    assert(whole[p] == c);
    assert forall|i: int| 0 <= i < p implies #[trigger] whole[i] != c by {
        assert(whole[i] == a[i]);
    }
    lemma_position_unique(whole, c, p);
    if p < a.len() {
        lemma_pieces_joined(a.skip(p + 1), b, c);
        assert(whole.take(p) =~= a.take(p));
        assert(whole.skip(p + 1) =~= a.skip(p + 1).push(c) + b);
        assert(pieces(whole, c) =~= pieces(a, c) + pieces(b, c));
    } else {
        assert(whole.take(p) =~= a);
        assert(whole.skip(p + 1) =~= b);
    }
}

pub(crate) fn split(s: &str, c: char) -> (r: Vec<String>)
    ensures
        r.deep_view() == pieces(s@, c),
{
    let chars = chars_of(s);
    let mut r: Vec<String> = Vec::new();
    let mut from: usize = 0;
    assert(chars@.skip(0) =~= chars@);
    assert(r.deep_view() + pieces(chars@, c) =~= pieces(chars@, c));
    loop
        invariant_except_break
            from <= chars@.len(),
            r.deep_view() + pieces(chars@.skip(from as int), c) == pieces(chars@, c),
        invariant
            chars@ == s@,
        ensures
            r.deep_view() == pieces(s@, c),
        decreases chars@.len() - from,
    {
        let p = position_from(&chars, from, c);
        let ghost rest = chars@.skip(from as int);
        let ghost before = r.deep_view();
        proof {
            assert(rest.take(p - from) =~= chars@.subrange(from as int, p as int));
        }
        push_line(&mut r, slice_of(&chars, from, p));
        if p == chars.len() {
            assert(rest.take(p - from) =~= rest);
            assert(r.deep_view() =~= before + pieces(rest, c));
            break;
        }
        proof {
            assert(rest.skip(p - from + 1) =~= chars@.skip(p + 1));
            assert(r.deep_view() + pieces(chars@.skip(p + 1), c) =~= before + pieces(rest, c));
        }
        from = p + 1;
    }
    r
}

pub open spec fn is_prefix(prefix: Text, s: Text) -> bool {
    prefix.len() <= s.len() && s.take(prefix.len() as int) == prefix
}

pub open spec fn occurs_at(s: Text, part: Text, i: int) -> bool {
    0 <= i && i + part.len() <= s.len() && s.subrange(i, i + part.len()) == part
}

/// Whether `part` stands somewhere in `s`.
pub open spec fn occurs(s: Text, part: Text) -> bool {
    exists|i: int| occurs_at(s, part, i)
}

fn matches_at(s: &Vec<char>, part: &Vec<char>, at: usize) -> (r: bool)
    requires
        at + part@.len() <= s@.len(),
    ensures
        r == occurs_at(s@, part@, at as int),
{
    let mut i: usize = 0;
    let size: usize = s.len();
    while i < part.len()
        invariant
            size == s@.len(),
            at + part@.len() <= size,
            i <= part@.len(),
            forall|j: int| 0 <= j < i ==> s@[at + j] == part@[j],
        decreases part@.len() - i,
    {
        if s[at + i] != part[i] {
            assert(s@.subrange(at as int, at + part@.len())[i as int] != part@[i as int]);
            return false;
        }
        i += 1;
    }
    assert(s@.subrange(at as int, at + part@.len()) =~= part@);
    true
}

pub(crate) fn contains(s: &str, part: &str) -> (r: bool)
    ensures
        r == occurs(s@, part@),
{
    let chars = chars_of(s);
    let wanted = chars_of(part);
    if wanted.len() > chars.len() {
        return false;
    }
    let last: usize = chars.len() - wanted.len();
    let mut i: usize = 0;
    while i <= last
        invariant
            chars@ == s@,
            wanted@ == part@,
            wanted@.len() <= chars@.len(),
            last == chars@.len() - wanted@.len(),
            i <= last + 1,
            forall|j: int| 0 <= j < i ==> !occurs_at(chars@, wanted@, j),
        decreases last + 1 - i,
    {
        if matches_at(&chars, &wanted, i) {
            return true;
        }
        if i == last {
            assert forall|j: int| !occurs_at(chars@, wanted@, j) by {}
            return false;
        }
        i += 1;
    }
    false
}

/// Whether `list` holds `item`.
pub(crate) fn list_contains(list: &Vec<String>, item: &str) -> (r: bool)
    ensures
        r == list.deep_view().contains(item@),
{
    let mut i: usize = 0;
    while i < list.len()
        invariant
            i <= list@.len(),
            forall|j: int| 0 <= j < i ==> list.deep_view()[j] != item@,
        decreases list@.len() - i,
    {
        if same(list[i].as_str(), item) {
            assert(list.deep_view()[i as int] == item@);
            return true;
        }
        i += 1;
    }
    false
}

/// The parts that are not empty.
pub open spec fn nonempty(parts: Seq<Text>) -> Seq<Text>
    decreases parts.len(),
{
    if parts.len() == 0 {
        Seq::empty()
    } else if parts.last().len() == 0 {
        nonempty(parts.drop_last())
    } else {
        nonempty(parts.drop_last()).push(parts.last())
    }
}

pub(crate) fn drop_empty(parts: &Vec<String>) -> (r: Vec<String>)
    ensures
        r.deep_view() == nonempty(parts.deep_view()),
{
    let ghost all = parts.deep_view();
    let mut r: Vec<String> = Vec::new();
    let mut i: usize = 0;
    assert(r.deep_view() =~= nonempty(all.take(0)));
    while i < parts.len()
        invariant
            i <= parts@.len(),
            all == parts.deep_view(),
            all.len() == parts@.len(),
            r.deep_view() == nonempty(all.take(i as int)),
        decreases parts@.len() - i,
    {
        assert(all.take(i + 1).drop_last() =~= all.take(i as int));
        assert(all.take(i + 1).last() == parts@[i as int]@);
        if !parts[i].as_str().is_empty() {
            push_line(&mut r, parts[i].clone());
        }
        i += 1;
    }
    assert(all.take(all.len() as int) =~= all);
    r
}

} // verus!
