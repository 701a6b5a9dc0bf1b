//! The files of systemd and D-Bus that say what a service runs.
use vstd::prelude::*;

use crate::paths::{self, is_absolute};
use crate::text::{
    self, chars_of, same, slice_of, split, split_once, strip, trim_start, CharClass, Text,
};

verus! {

/// One `key=value` line, with the section it stands in.
#[derive(Debug, Clone)]
pub struct Property {
    pub section: String,
    pub key: String,
    pub value: String,
}

pub struct PropertyView {
    pub section: Text,
    pub key: Text,
    pub value: Text,
}

impl DeepView for Property {
    type V = PropertyView;

    open spec fn deep_view(&self) -> PropertyView {
        PropertyView { section: self.section@, key: self.key@, value: self.value@ }
    }
}

/// What a line, without the white space around it, is.
pub enum LineView {
    /// Blank, a comment, or nothing that is understood.
    Nothing,
    Section { name: Text },
    Value { key: Text, value: Text },
}

pub open spec fn line_of(line: Text) -> LineView {
    if line.len() == 0 || line[0] == '#' || line[0] == ';' {
        LineView::Nothing
    } else if line[0] == '[' && line.last() == ']' {
        LineView::Section { name: line.subrange(1, line.len() - 1) }
    } else {
        match text::halves(line, '=') {
            None => LineView::Nothing,
            Some((key, value)) => LineView::Value {
                key: text::stripped(key),
                value: text::stripped(value),
            },
        }
    }
}

/// The properties on the lines, the first of which stands in `section`.
pub open spec fn properties_of(lines: Seq<Text>, section: Text) -> Seq<PropertyView>
    decreases lines.len(),
{
    if lines.len() == 0 {
        Seq::empty()
    } else {
        let rest = lines.drop_first();
        match line_of(text::stripped(lines[0])) {
            LineView::Nothing => properties_of(rest, section),
            LineView::Section { name } => properties_of(rest, name),
            LineView::Value { key, value } => seq![PropertyView { section, key, value }]
                + properties_of(rest, section),
        }
    }
}

/// The properties in a file.
pub open spec fn properties_in(contents: Text) -> Seq<PropertyView> {
    properties_of(text::pieces(contents, '\n'), Seq::empty())
}

enum Line {
    Nothing,
    Section { name: String },
    Value { key: String, value: String },
}

impl DeepView for Line {
    type V = LineView;

    closed spec fn deep_view(&self) -> LineView {
        match self {
            Line::Nothing => LineView::Nothing,
            Line::Section { name } => LineView::Section { name: name@ },
            Line::Value { key, value } => LineView::Value { key: key@, value: value@ },
        }
    }
}

fn read_line(line: &str) -> (r: Line)
    ensures
        r.deep_view() == line_of(line@),
{
    let chars = chars_of(line);
    let count = chars.len();
    if count == 0 || chars[0] == '#' || chars[0] == ';' {
        return Line::Nothing;
    }
    if chars[0] == '[' && chars[count - 1] == ']' {
        return Line::Section { name: slice_of(&chars, 1, count - 1) };
    }
    match split_once(line, '=') {
        None => Line::Nothing,
        Some((key, value)) => Line::Value {
            key: strip(key.as_str()),
            value: strip(value.as_str()),
        },
    }
}

/// Reads the properties of a file.
pub fn parse_ini(contents: &str) -> (r: Vec<Property>)
    ensures
        r.deep_view() == properties_in(contents@),
{
    let lines = split(contents, '\n');
    let ghost all = lines.deep_view();
    let mut section = String::new();
    let mut r: Vec<Property> = Vec::new();
    let mut i: usize = 0;
    assert(all.skip(0) =~= all);
    assert(section@ =~= Seq::empty());
    assert(r.deep_view() + properties_of(all, section@) =~= properties_of(all, section@));
    while i < lines.len()
        invariant
            i <= lines@.len(),
            all == lines.deep_view(),
            all.len() == lines@.len(),
            r.deep_view() + properties_of(all.skip(i as int), section@) == properties_in(contents@),
        decreases lines@.len() - i,
    {
        let ghost before = r.deep_view();
        let ghost here = section@;
        let ghost rest = all.skip(i + 1);
        assert(all.skip(i as int)[0] == lines@[i as int]@);
        assert(all.skip(i as int).drop_first() =~= rest);
        match read_line(strip(lines[i].as_str()).as_str()) {
            Line::Nothing => {},
            Line::Section { name } => {
                section = name;
            },
            Line::Value { key, value } => {
                let property = Property { section: section.clone(), key, value };
                r.push(property);
                assert(r.deep_view() =~= before.push(property.deep_view()));
                assert(r.deep_view() + properties_of(rest, here) =~= before + (seq![
                    property.deep_view(),
                ] + properties_of(rest, here)));
            },
        }
        i += 1;
    }
    assert(all.skip(all.len() as int) =~= Seq::empty());
    assert(r.deep_view() + Seq::empty() =~= r.deep_view());
    r
}

/// The last value of a key that is not empty.
pub open spec fn last_value(values: Seq<PropertyView>, section: Text, key: Text) -> Option<Text>
    decreases values.len(),
{
    if values.len() == 0 {
        None
    } else if values.last().section == section && values.last().key == key
        && values.last().value.len() > 0 {
        Some(values.last().value)
    } else {
        last_value(values.drop_last(), section, key)
    }
}

pub(crate) fn last_nonempty_value(values: &Vec<Property>, section: &str, key: &str) -> (r: Option<
    String,
>)
    ensures
        r.deep_view() == last_value(values.deep_view(), section@, key@),
{
    let ghost all = values.deep_view();
    let mut i: usize = values.len();
    assert(all.take(all.len() as int) =~= all);
    while i > 0
        invariant
            i <= values@.len(),
            all == values.deep_view(),
            all.len() == values@.len(),
            last_value(all, section@, key@) == last_value(all.take(i as int), section@, key@),
        decreases i,
    {
        let property = &values[i - 1];
        assert(all.take(i as int).last() == property.deep_view());
        assert(all.take(i as int).drop_last() =~= all.take(i - 1));
        if same(property.section.as_str(), section) && same(property.key.as_str(), key)
            && !property.value.as_str().is_empty() {
            return Some(property.value.clone());
        }
        i -= 1;
    }
    None
}

// ---- What a service runs

/// What comes before the first white space.
pub open spec fn first_word(s: Text) -> Text
    decreases s.len(),
{
    if s.len() == 0 || text::is_white_space(s[0]) {
        Seq::empty()
    } else {
        seq![s[0]] + first_word(s.drop_first())
    }
}

/// The first word of a command line, which may be quoted.
pub open spec fn first_token(exec_start: Text) -> Option<Text> {
    let line = text::stripped(exec_start);
    if line.len() == 0 {
        None
    } else if line[0] == '"' {
        match text::halves(line.drop_first(), '"') {
            Some((quoted, _)) => Some(quoted),
            None => None,
        }
    } else {
        Some(first_word(line))
    }
}

fn word_of(chars: &Vec<char>) -> (r: String)
    ensures
        r@ == first_word(chars@),
{
    let mut i: usize = 0;
    assert(chars@.skip(0) =~= chars@);
    assert(chars@.take(0) + first_word(chars@) =~= first_word(chars@));
    while i < chars.len() && !CharClass::Whitespace.test(chars[i])
        invariant
            i <= chars@.len(),
            chars@.take(i as int) + first_word(chars@.skip(i as int)) == first_word(chars@),
        decreases chars@.len() - i,
    {
        let ghost rest = chars@.skip(i as int);
        assert(rest[0] == chars@[i as int]);
        assert(rest.drop_first() =~= chars@.skip(i + 1));
        assert(chars@.take(i + 1) + first_word(rest.drop_first()) =~= chars@.take(i as int) + (seq![
            rest[0],
        ] + first_word(rest.drop_first())));
        i += 1;
    }
    proof {
        let rest = chars@.skip(i as int);
        if i < chars@.len() {
            assert(rest[0] == chars@[i as int]);
        }
        assert(first_word(rest) =~= Seq::empty());
        assert(chars@.take(i as int) + Seq::empty() =~= chars@.take(i as int));
        assert(chars@.subrange(0, i as int) =~= chars@.take(i as int));
    }
    slice_of(chars, 0, i)
}

fn first_exec_token(exec_start: &str) -> (r: Option<String>)
    ensures
        r.deep_view() == first_token(exec_start@),
{
    let line = strip(exec_start);
    let chars = chars_of(line.as_str());
    if chars.len() == 0 {
        return None;
    }
    if chars[0] == '"' {
        let rest = slice_of(&chars, 1, chars.len());
        assert(rest@ =~= line@.drop_first());
        return match split_once(rest.as_str(), '"') {
            Some((quoted, _)) => Some(quoted),
            None => None,
        };
    }
    Some(word_of(&chars))
}

/// The program that a command line runs, if it names one by an absolute path.
pub open spec fn executable_of(exec_start: Text) -> Option<Text> {
    match first_token(exec_start) {
        None => None,
        Some(token) => {
            let path = text::trimmed_start(token, CharClass::ExecMarker);
            if paths::absolute(path) {
                Some(path)
            } else {
                None
            }
        },
    }
}

pub fn parse_exec_executable(exec_start: &str) -> (r: Option<String>)
    ensures
        r.deep_view() == executable_of(exec_start@),
{
    match first_exec_token(exec_start) {
        None => None,
        Some(token) => {
            let path = trim_start(token.as_str(), CharClass::ExecMarker);
            if is_absolute(path.as_str()) {
                Some(path)
            } else {
                None
            }
        },
    }
}

} // verus!
