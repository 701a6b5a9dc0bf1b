//! The Nix expressions that evaluate, materialize and build a package, read as Nix reads them.
use vstd::prelude::*;

use crate::activation::records::ModuleView;
use crate::activation::scripts;
use crate::command::CommandView;
use crate::laws::{literals, texts};
use crate::metadata::MetadataView;
use crate::nix::{self, InstallableView, PathReadView};
use crate::text::{self, Text};

verus! {

// ---- Reading an expression

/// What Nix reads of a string whose opening quote is behind it, and what follows the closing
/// quote; nothing where the string does not end, or holds an interpolation.
pub open spec fn string_in(s: Text) -> Option<(Text, Text)>
    decreases s.len(),
{
    if s.len() == 0 {
        None
    } else if s[0] == '"' {
        Some((Seq::empty(), s.drop_first()))
    } else if s[0] == '$' && s.len() > 1 && s[1] == '{' {
        None
    } else if s[0] == '\\' {
        if s.len() == 1 {
            None
        } else {
            let c = if s[1] == 'n' {
                '\n'
            } else if s[1] == 'r' {
                '\r'
            } else if s[1] == 't' {
                '\t'
            } else {
                s[1]
            };
            match string_in(s.skip(2)) {
                Some((value, rest)) => Some((seq![c] + value, rest)),
                None => None,
            }
        }
    } else {
        match string_in(s.drop_first()) {
            Some((value, rest)) => Some((seq![s[0]] + value, rest)),
            None => None,
        }
    }
}

/// What Nix reads of a list of strings whose opening bracket is behind it.
pub open spec fn list_in(s: Text) -> Option<Seq<Text>>
    decreases s.len(),
{
    if s.len() == 0 {
        None
    } else if s[0] == ']' {
        Some(Seq::empty())
    } else if s[0] == ' ' {
        list_in(s.drop_first())
    } else if s[0] == '"' {
        match string_in(s.drop_first()) {
            Some((value, rest)) => if rest.len() < s.len() {
                match list_in(rest) {
                    Some(values) => Some(seq![value] + values),
                    None => None,
                }
            } else {
                None
            },
            None => None,
        }
    } else {
        None
    }
}

/// What follows the first place in an expression, outside of its strings, where a word stands.
pub open spec fn after(s: Text, word: Text) -> Option<Text>
    decreases s.len(),
{
    if s.len() == 0 {
        None
    } else if text::is_prefix(word, s) {
        Some(s.skip(word.len() as int))
    } else if s[0] == '"' {
        match string_in(s.drop_first()) {
            Some((_, rest)) => if rest.len() < s.len() {
                after(rest, word)
            } else {
                None
            },
            None => None,
        }
    } else {
        after(s.drop_first(), word)
    }
}

/// The string right behind a word.
pub open spec fn string_after(s: Text, word: Text) -> Option<Text> {
    match after(s, word) {
        Some(rest) => if rest.len() > 0 && rest[0] == '"' {
            match string_in(rest.drop_first()) {
                Some((value, _)) => Some(value),
                None => None,
            }
        } else {
            None
        },
        None => None,
    }
}

/// The list of strings right behind a word.
pub open spec fn list_after(s: Text, word: Text) -> Option<Seq<Text>> {
    match after(s, word) {
        Some(rest) => if rest.len() > 0 && rest[0] == '[' {
            list_in(rest.drop_first())
        } else {
            None
        },
        None => None,
    }
}

// ---- Reading what was written

proof fn lemma_string_read(s: Text, rest: Text)
    ensures
        string_in(nix::escaped(s) + seq!['"'] + rest) == Some((s, rest)),
    decreases s.len(),
{
    let whole = nix::escaped(s) + seq!['"'] + rest;
    if s.len() == 0 {
        assert(whole.drop_first() =~= rest);
        assert(s =~= Seq::empty());
    } else {
        let opens = s.len() > 1 && s[1] == '{';
        let first = nix::escaped_char(s[0], opens);
        let tail = nix::escaped(s.drop_first()) + seq!['"'] + rest;
        lemma_string_read(s.drop_first(), rest);
        assert(whole =~= first + tail);
        assert(seq![s[0]] + s.drop_first() =~= s);
        if first.len() == 2 {
            assert(whole.skip(2) =~= tail);
        } else {
            assert(whole.drop_first() =~= tail);
            assert(whole[1] == tail[0]);
            if s.len() > 1 {
                assert(s.drop_first()[0] == s[1]);
                let second = nix::escaped_char(
                    s[1],
                    s.drop_first().len() > 1 && s.drop_first()[1] == '{',
                );
                assert(tail[0] == second[0]);
            }
        }
    }
}

/// The strings of a list up to its closing bracket.
spec fn list_body(values: Seq<Text>) -> Text {
    text::joined(nix::literals(values), " "@) + " ]"@
}

proof fn lemma_list_step(values: Seq<Text>, rest: Text)
    requires
        values.len() > 0,
    ensures
        list_body(values) + rest == nix::literal(values[0]) + (if values.len() == 1 {
            " ]"@ + rest
        } else {
            " "@ + (list_body(values.drop_first()) + rest)
        }),
{
    let parts = nix::literals(values);
    if values.len() == 1 {
        assert(text::joined(parts, " "@) == nix::literal(values[0]));
        assert(list_body(values) + rest =~= nix::literal(values[0]) + (" ]"@ + rest));
    } else {
        texts::lemma_joined_first(parts, " "@);
        assert(parts.drop_first() =~= nix::literals(values.drop_first()));
        assert(list_body(values) + rest =~= nix::literal(values[0]) + (" "@ + (list_body(
            values.drop_first(),
        ) + rest)));
    }
}

proof fn lemma_list_read(values: Seq<Text>, rest: Text)
    ensures
        list_in(list_body(values) + rest) == Some(values),
    decreases values.len(),
{
    reveal_strlit(" ");
    reveal_strlit(" ]");
    reveal_with_fuel(list_in, 2);
    let whole = list_body(values) + rest;
    if values.len() == 0 {
        assert(text::joined(nix::literals(values), " "@) =~= Seq::empty());
        assert(whole =~= " ]"@ + rest);
        lemma_list_closed(rest);
        assert(values =~= Seq::empty());
    } else {
        let next = if values.len() == 1 {
            " ]"@ + rest
        } else {
            " "@ + (list_body(values.drop_first()) + rest)
        };
        lemma_list_step(values, rest);
        lemma_string_read(values[0], next);
        assert(whole[0] == '"');
        assert(whole.drop_first() =~= nix::escaped(values[0]) + seq!['"'] + next);
        if values.len() == 1 {
            lemma_list_closed(rest);
            assert(seq![values[0]] + Seq::<Text>::empty() =~= values);
        } else {
            lemma_list_read(values.drop_first(), rest);
            assert(next.drop_first() =~= list_body(values.drop_first()) + rest);
            assert(seq![values[0]] + values.drop_first() =~= values);
        }
    }
}

proof fn lemma_list_closed(rest: Text)
    ensures
        list_in(" ]"@ + rest) == Some(Seq::<Text>::empty()),
{
    reveal_strlit(" ]");
    let s = " ]"@ + rest;
    reveal_with_fuel(list_in, 2);
    assert(s[0] == ' ' && s[1] == ']');
    assert(s.drop_first()[0] == ']');
}

/// A part of an expression: code, a string or a list of strings.
enum Part {
    Code(Text),
    Str(Text),
    List(Seq<Text>),
}

spec fn written_part(part: Part) -> Text {
    match part {
        Part::Code(code) => code,
        Part::Str(value) => nix::literal(value),
        Part::List(values) => nix::literal_list(values),
    }
}

/// The parts from one on, one after the other.
spec fn written(parts: Seq<Part>, from: int) -> Text
    decreases parts.len() - from,
{
    if 0 <= from < parts.len() {
        written_part(parts[from]) + written(parts, from + 1)
    } else {
        Seq::empty()
    }
}

/// Whether a word begins nowhere in some code, by its first three characters.
spec fn code_lacks(code: Text, word: Text, from: int) -> bool
    decreases code.len() - from,
{
    from >= code.len() || from < 0 || (code[from] != '"' && (code[from] != word[0] || (from + 1
        < code.len() && code[from + 1] != word[1]) || (from + 2 < code.len() && code[from + 2]
        != word[2])) && code_lacks(code, word, from + 1))
}

spec fn lacks(part: Part, word: Text) -> bool {
    match part {
        Part::Code(code) => code_lacks(code, word, 0),
        _ => true,
    }
}

/// Whether a word is one to look for: it begins with neither a quote nor a list's signs.
spec fn is_word(word: Text) -> bool {
    &&& word.len() >= 3
    &&& word[0] != '"'
    &&& word[0] != '['
    &&& word[0] != ']'
    &&& word[0] != ' '
}

proof fn lemma_code_passed(code: Text, from: int, rest: Text, word: Text)
    requires
        is_word(word),
        0 <= from <= code.len(),
        code_lacks(code, word, from),
    ensures
        after(code.skip(from) + rest, word) == after(rest, word),
    decreases code.len() - from,
{
    let s = code.skip(from) + rest;
    if from == code.len() {
        assert(s =~= rest);
    } else {
        lemma_code_passed(code, from + 1, rest, word);
        assert(s.drop_first() =~= code.skip(from + 1) + rest);
        assert(s[0] == code[from]);
        if text::is_prefix(word, s) {
            assert(s.take(word.len() as int)[0] == word[0]);
            assert(s.take(word.len() as int)[1] == word[1]);
            assert(s.take(word.len() as int)[2] == word[2]);
            if from + 1 < code.len() {
                assert(s[1] == code[from + 1]);
            }
            if from + 2 < code.len() {
                assert(s[2] == code[from + 2]);
            }
        }
    }
}

proof fn lemma_char_passed(c: char, rest: Text, word: Text)
    requires
        is_word(word),
        c != word[0],
        c != '"',
    ensures
        after(seq![c] + rest, word) == after(rest, word),
{
    let s = seq![c] + rest;
    assert(s.drop_first() =~= rest);
    if text::is_prefix(word, s) {
        assert(s.take(word.len() as int)[0] == word[0]);
    }
}

proof fn lemma_string_passed(value: Text, rest: Text, word: Text)
    requires
        is_word(word),
    ensures
        after(nix::literal(value) + rest, word) == after(rest, word),
{
    let s = nix::literal(value) + rest;
    lemma_string_read(value, rest);
    assert(s.drop_first() =~= nix::escaped(value) + seq!['"'] + rest);
    assert(s[0] == '"');
    if text::is_prefix(word, s) {
        assert(s.take(word.len() as int)[0] == word[0]);
    }
}

proof fn lemma_list_body_passed(values: Seq<Text>, rest: Text, word: Text)
    requires
        is_word(word),
    ensures
        after(list_body(values) + rest, word) == after(rest, word),
    decreases values.len(),
{
    reveal_strlit(" ");
    reveal_strlit(" ]");
    assert(" ]"@ + rest =~= seq![' '] + (seq![']'] + rest));
    lemma_char_passed(' ', seq![']'] + rest, word);
    lemma_char_passed(']', rest, word);
    if values.len() == 0 {
        assert(text::joined(nix::literals(values), " "@) =~= Seq::empty());
        assert(list_body(values) + rest =~= " ]"@ + rest);
    } else {
        lemma_list_step(values, rest);
        if values.len() == 1 {
            lemma_string_passed(values[0], " ]"@ + rest, word);
        } else {
            let more = list_body(values.drop_first()) + rest;
            lemma_string_passed(values[0], " "@ + more, word);
            assert(" "@ + more =~= seq![' '] + more);
            lemma_char_passed(' ', more, word);
            lemma_list_body_passed(values.drop_first(), rest, word);
        }
    }
}

proof fn lemma_list_opened(values: Seq<Text>, rest: Text)
    ensures
        nix::literal_list(values) + rest == seq!['['] + (seq![' '] + (list_body(values) + rest)),
{
    reveal_strlit("[ ");
    assert(nix::literal_list(values) + rest =~= seq!['['] + (seq![' '] + (list_body(values)
        + rest)));
}

proof fn lemma_part_passed(part: Part, rest: Text, word: Text)
    requires
        is_word(word),
        lacks(part, word),
    ensures
        after(written_part(part) + rest, word) == after(rest, word),
{
    match part {
        Part::Code(code) => {
            lemma_code_passed(code, 0, rest, word);
            assert(code.skip(0) =~= code);
        },
        Part::Str(value) => {
            lemma_string_passed(value, rest, word);
        },
        Part::List(values) => {
            lemma_list_opened(values, rest);
            let body = list_body(values) + rest;
            lemma_char_passed('[', seq![' '] + body, word);
            lemma_char_passed(' ', body, word);
            lemma_list_body_passed(values, rest, word);
        },
    }
}

/// A word is found in the first part that holds it.
proof fn lemma_found(parts: Seq<Part>, from: int, k: int, at: int, word: Text)
    requires
        is_word(word),
        0 <= from <= k < parts.len(),
        parts[k] is Code,
        0 <= at <= parts[k]->Code_0.len(),
        stands(parts[k]->Code_0, word, at, 0),
        lacks_before(parts[k]->Code_0, word, 0, at),
        forall|i: int| from <= i < k ==> lacks(#[trigger] parts[i], word),
    ensures
        after(written(parts, from), word) == Some(
            parts[k]->Code_0.skip(at + word.len()) + written(parts, k + 1),
        ),
    decreases k - from,
{
    let rest = written(parts, from + 1);
    if k == from {
        let code = parts[k]->Code_0;
        let pre = code.take(at);
        let post = code.skip(at + word.len());
        let tail = word + post + rest;
        lemma_split(code, word, at);
        lemma_lacks_before(code, word, 0, at);
        assert(code + rest =~= pre + tail);
        lemma_code_passed(pre, 0, tail, word);
        assert(pre.skip(0) =~= pre);
        assert(tail.take(word.len() as int) =~= word);
        assert(tail.skip(word.len() as int) =~= post + rest);
    } else {
        lemma_found(parts, from + 1, k, at, word);
        lemma_part_passed(parts[from], rest, word);
    }
}

/// As `lemma_found`, for a word at the end of its part with a string behind it.
proof fn lemma_string_found(parts: Seq<Part>, k: int, at: int, word: Text)
    requires
        is_word(word),
        0 <= k < parts.len() - 1,
        parts[k] is Code,
        0 <= at,
        at + word.len() == parts[k]->Code_0.len(),
        stands(parts[k]->Code_0, word, at, 0),
        lacks_before(parts[k]->Code_0, word, 0, at),
        forall|i: int| 0 <= i < k ==> lacks(#[trigger] parts[i], word),
        parts[k + 1] is Str,
    ensures
        string_after(written(parts, 0), word) == Some(parts[k + 1]->Str_0),
{
    lemma_found(parts, 0, k, at, word);
    let value = parts[k + 1]->Str_0;
    let rest = written(parts, k + 2);
    let s = nix::literal(value) + rest;
    assert(parts[k]->Code_0.skip(at + word.len()) + written(parts, k + 1) =~= s);
    assert(s.drop_first() =~= nix::escaped(value) + seq!['"'] + rest);
    lemma_string_read(value, rest);
}

/// As `lemma_found`, for a word at the end of its part with a list behind it.
proof fn lemma_list_found(parts: Seq<Part>, k: int, at: int, word: Text)
    requires
        is_word(word),
        0 <= k < parts.len() - 1,
        parts[k] is Code,
        0 <= at,
        at + word.len() == parts[k]->Code_0.len(),
        stands(parts[k]->Code_0, word, at, 0),
        lacks_before(parts[k]->Code_0, word, 0, at),
        forall|i: int| 0 <= i < k ==> lacks(#[trigger] parts[i], word),
        parts[k + 1] is List,
    ensures
        list_after(written(parts, 0), word) == Some(parts[k + 1]->List_0),
{
    lemma_found(parts, 0, k, at, word);
    let values = parts[k + 1]->List_0;
    let rest = written(parts, k + 2);
    let s = nix::literal_list(values) + rest;
    let body = list_body(values) + rest;
    assert(parts[k]->Code_0.skip(at + word.len()) + written(parts, k + 1) =~= s);
    lemma_list_opened(values, rest);
    assert(s.drop_first() =~= seq![' '] + body);
    assert((seq![' '] + body).drop_first() =~= body);
    reveal_with_fuel(list_in, 2);
    lemma_list_read(values, rest);
}

proof fn lemma_next_part(before: Text, parts: Seq<Part>, from: int)
    requires
        0 <= from < parts.len(),
    ensures
        before + written(parts, from) == before + written_part(parts[from]) + written(
            parts,
            from + 1,
        ),
{
    assert(before + written(parts, from) =~= before + written_part(parts[from]) + written(
        parts,
        from + 1,
    ));
}

/// Whether a word stands at a place in some code.
spec fn stands(code: Text, word: Text, at: int, from: int) -> bool
    decreases word.len() - from,
{
    from >= word.len() || from < 0 || (0 <= at + from < code.len() && code[at + from] == word[from]
        && stands(code, word, at, from + 1))
}

/// As `code_lacks`, up to a place.
spec fn lacks_before(code: Text, word: Text, from: int, to: int) -> bool
    decreases to - from,
{
    from >= to || from < 0 || (code[from] != '"' && (code[from] != word[0] || (from + 1 < to
        && code[from + 1] != word[1]) || (from + 2 < to && code[from + 2] != word[2])) && lacks_before(code, word, from + 1, to))
}

proof fn lemma_stands(code: Text, word: Text, at: int, from: int, i: int)
    requires
        stands(code, word, at, from),
        0 <= from <= i < word.len(),
        0 <= at,
    ensures
        at + i < code.len(),
        code[at + i] == word[i],
    decreases word.len() - from,
{
    if from < i {
        lemma_stands(code, word, at, from + 1, i);
    }
}

proof fn lemma_split(code: Text, word: Text, at: int)
    requires
        stands(code, word, at, 0),
        0 <= at <= code.len(),
        word.len() > 0,
    ensures
        at + word.len() <= code.len(),
        code == code.take(at) + word + code.skip(at + word.len()),
{
    lemma_stands(code, word, at, 0, word.len() - 1);
    let whole = code.take(at) + word + code.skip(at + word.len());
    assert forall|i: int| 0 <= i < code.len() implies code[i] == whole[i] by {
        if at <= i < at + word.len() {
            lemma_stands(code, word, at, 0, i - at);
        }
    }
    assert(code =~= whole);
}

proof fn lemma_lacks_before(code: Text, word: Text, from: int, to: int)
    requires
        lacks_before(code, word, from, to),
        0 <= from <= to <= code.len(),
    ensures
        code_lacks(code.take(to), word, from),
    decreases to - from,
{
    if from < to {
        lemma_lacks_before(code, word, from + 1, to);
    }
}

// ---- What the expressions hold

/// The code of the source filter up to the name that it leaves out, and behind it.
spec fn filter_head() -> Text {
    nix::LOCAL_FILTER@.take(46)
}

spec fn filter_tail() -> Text {
    nix::LOCAL_FILTER@.skip(52)
}

proof fn lemma_filter()
    ensures
        nix::LOCAL_FILTER@ == filter_head() + nix::literal(".git"@) + filter_tail(),
        filter_head().len() == 46,
        filter_tail().len() == 7,
{
    reveal_strlit(";
    filter = path: type: baseNameOf path != \".git\";
  };
");
    reveal_strlit(".git");
    reveal_with_fuel(nix::escaped, 6);
    let name = nix::literal(".git"@);
    assert(name =~= seq!['"', '.', 'g', 'i', 't', '"']);
    let whole = nix::LOCAL_FILTER@;
    let middle = whole.subrange(46, 52);
    assert(middle.len() == 6);
    assert(middle[0] == '"' && middle[1] == '.' && middle[2] == 'g' && middle[3] == 'i' && middle[4]
        == 't' && middle[5] == '"');
    assert(middle =~= name);
    assert(whole =~= filter_head() + middle + filter_tail());
}

proof fn lemma_let_flake()
    ensures
        nix::LET_FLAKE@.len() == 33,
        stands(nix::LET_FLAKE@, "builtins.getFlake "@, 15, 0),
        lacks_before(nix::LET_FLAKE@, "builtins.getFlake "@, 0, 15),
        code_lacks(nix::LET_FLAKE@, ".legacyPackages.${"@, 0),
        code_lacks(nix::LET_FLAKE@, "attrByPath "@, 0),
        code_lacks(nix::LET_FLAKE@, "(throw "@, 0),
        code_lacks(nix::LET_FLAKE@, "localSource = builtins.path {\n    path = "@, 0),
        code_lacks(nix::LET_FLAKE@, "name = "@, 0),
        code_lacks(nix::LET_FLAKE@, "baseNameOf path != "@, 0),
        code_lacks(nix::LET_FLAKE@, "src = localSource;\n    patches = [];"@, 0),
        code_lacks(nix::LET_FLAKE@, ".legacyPackages.${builtins.currentSystem};"@, 0),
{
    reveal_strlit("
let
  flake = builtins.getFlake ");
    reveal_strlit("builtins.getFlake ");
    reveal_strlit(".legacyPackages.${");
    reveal_strlit("attrByPath ");
    reveal_strlit("(throw ");
    reveal_strlit("localSource = builtins.path {\n    path = ");
    reveal_strlit("name = ");
    reveal_strlit("baseNameOf path != ");
    reveal_strlit("src = localSource;\n    patches = [];");
    reveal_strlit(".legacyPackages.${builtins.currentSystem};");
    reveal_with_fuel(code_lacks, 35);
    reveal_with_fuel(stands, 35);
    reveal_with_fuel(lacks_before, 35);
}

proof fn lemma_system_packages()
    ensures
        nix::SYSTEM_PACKAGES@.len() == 34,
        stands(nix::SYSTEM_PACKAGES@, ".legacyPackages.${"@, 16, 0),
        lacks_before(nix::SYSTEM_PACKAGES@, ".legacyPackages.${"@, 0, 16),
        code_lacks(nix::SYSTEM_PACKAGES@, "attrByPath "@, 0),
        code_lacks(nix::SYSTEM_PACKAGES@, "(throw "@, 0),
        code_lacks(nix::SYSTEM_PACKAGES@, "localSource = builtins.path {\n    path = "@, 0),
        code_lacks(nix::SYSTEM_PACKAGES@, "name = "@, 0),
        code_lacks(nix::SYSTEM_PACKAGES@, "baseNameOf path != "@, 0),
        code_lacks(nix::SYSTEM_PACKAGES@, "src = localSource;\n    patches = [];"@, 0),
{
    reveal_strlit(";
  pkgs = flake.legacyPackages.${");
    reveal_strlit(".legacyPackages.${");
    reveal_strlit("attrByPath ");
    reveal_strlit("(throw ");
    reveal_strlit("localSource = builtins.path {\n    path = ");
    reveal_strlit("name = ");
    reveal_strlit("baseNameOf path != ");
    reveal_strlit("src = localSource;\n    patches = [];");
    reveal_with_fuel(code_lacks, 36);
    reveal_with_fuel(stands, 36);
    reveal_with_fuel(lacks_before, 36);
}

proof fn lemma_system_package()
    ensures
        nix::SYSTEM_PACKAGE@.len() == 44,
        stands(nix::SYSTEM_PACKAGE@, "attrByPath "@, 33, 0),
        lacks_before(nix::SYSTEM_PACKAGE@, "attrByPath "@, 0, 33),
        code_lacks(nix::SYSTEM_PACKAGE@, "(throw "@, 0),
        code_lacks(nix::SYSTEM_PACKAGE@, "localSource = builtins.path {\n    path = "@, 0),
        code_lacks(nix::SYSTEM_PACKAGE@, "name = "@, 0),
        code_lacks(nix::SYSTEM_PACKAGE@, "baseNameOf path != "@, 0),
        code_lacks(nix::SYSTEM_PACKAGE@, "src = localSource;\n    patches = [];"@, 0),
{
    reveal_strlit("};
  lib = pkgs.lib;
  pkg = lib.attrByPath ");
    reveal_strlit("attrByPath ");
    reveal_strlit("(throw ");
    reveal_strlit("localSource = builtins.path {\n    path = ");
    reveal_strlit("name = ");
    reveal_strlit("baseNameOf path != ");
    reveal_strlit("src = localSource;\n    patches = [];");
    reveal_with_fuel(code_lacks, 46);
    reveal_with_fuel(stands, 46);
    reveal_with_fuel(lacks_before, 46);
}

proof fn lemma_or_throw()
    ensures
        nix::OR_THROW@.len() == 8,
        stands(nix::OR_THROW@, "(throw "@, 1, 0),
        lacks_before(nix::OR_THROW@, "(throw "@, 0, 1),
        code_lacks(nix::OR_THROW@, "localSource = builtins.path {\n    path = "@, 0),
        code_lacks(nix::OR_THROW@, "name = "@, 0),
        code_lacks(nix::OR_THROW@, "baseNameOf path != "@, 0),
        code_lacks(nix::OR_THROW@, "src = localSource;\n    patches = [];"@, 0),
{
    reveal_strlit(" (throw ");
    reveal_strlit("(throw ");
    reveal_strlit("localSource = builtins.path {\n    path = ");
    reveal_strlit("name = ");
    reveal_strlit("baseNameOf path != ");
    reveal_strlit("src = localSource;\n    patches = [];");
    reveal_with_fuel(code_lacks, 10);
    reveal_with_fuel(stands, 10);
    reveal_with_fuel(lacks_before, 10);
}

proof fn lemma_local_source()
    ensures
        nix::LOCAL_SOURCE@.len() == 51,
        stands(nix::LOCAL_SOURCE@, "localSource = builtins.path {\n    path = "@, 10, 0),
        lacks_before(nix::LOCAL_SOURCE@, "localSource = builtins.path {\n    path = "@, 0, 10),
        code_lacks(nix::LOCAL_SOURCE@, "name = "@, 0),
        code_lacks(nix::LOCAL_SOURCE@, "baseNameOf path != "@, 0),
        code_lacks(nix::LOCAL_SOURCE@, "src = localSource;\n    patches = [];"@, 0),
{
    reveal_strlit(") pkgs;
  localSource = builtins.path {
    path = ");
    reveal_strlit("localSource = builtins.path {\n    path = ");
    reveal_strlit("name = ");
    reveal_strlit("baseNameOf path != ");
    reveal_strlit("src = localSource;\n    patches = [];");
    reveal_with_fuel(code_lacks, 53);
    reveal_with_fuel(stands, 53);
    reveal_with_fuel(lacks_before, 53);
}

proof fn lemma_local_name()
    ensures
        nix::LOCAL_NAME@.len() == 13,
        stands(nix::LOCAL_NAME@, "name = "@, 6, 0),
        lacks_before(nix::LOCAL_NAME@, "name = "@, 0, 6),
        code_lacks(nix::LOCAL_NAME@, "baseNameOf path != "@, 0),
        code_lacks(nix::LOCAL_NAME@, "src = localSource;\n    patches = [];"@, 0),
{
    reveal_strlit(";
    name = ");
    reveal_strlit("name = ");
    reveal_strlit("baseNameOf path != ");
    reveal_strlit("src = localSource;\n    patches = [];");
    reveal_with_fuel(code_lacks, 15);
    reveal_with_fuel(stands, 15);
    reveal_with_fuel(lacks_before, 15);
}

proof fn lemma_filter_head()
    ensures
        stands(filter_head(), "baseNameOf path != "@, 27, 0),
        lacks_before(filter_head(), "baseNameOf path != "@, 0, 27),
        code_lacks(filter_head(), "src = localSource;\n    patches = [];"@, 0),
{
    reveal_strlit(";
    filter = path: type: baseNameOf path != \".git\";
  };
");
    reveal_strlit("baseNameOf path != ");
    reveal_strlit("src = localSource;\n    patches = [];");
    reveal_with_fuel(code_lacks, 48);
    reveal_with_fuel(stands, 48);
    reveal_with_fuel(lacks_before, 48);
    lemma_filter();
}

proof fn lemma_filter_tail()
    ensures
        code_lacks(filter_tail(), "src = localSource;\n    patches = [];"@, 0),
{
    reveal_strlit(";
    filter = path: type: baseNameOf path != \".git\";
  };
");
    reveal_strlit("src = localSource;\n    patches = [];");
    reveal_with_fuel(code_lacks, 9);
    lemma_filter();
}

proof fn lemma_build_body()
    ensures
        nix::BUILD_BODY@.len() == 313,
        stands(nix::BUILD_BODY@, "src = localSource;\n    patches = [];"@, 35, 0),
        lacks_before(nix::BUILD_BODY@, "src = localSource;\n    patches = [];"@, 0, 35),
{
    reveal_strlit("in
  pkg.overrideAttrs (old: {
    src = localSource;
    patches = [];
    prePatch = \"\";
    postPatch = \"\";
    patchPhase = \"runHook prePatch\\nrunHook postPatch\\n\";
    unpackPhase = \"runHook preUnpack\\ncp -a --reflink=auto \\\"$src\\\" source\\nchmod -R u+w source\\nsourceRoot=source\\nrunHook postUnpack\\n\";
  })
");
    reveal_strlit("src = localSource;\n    patches = [];");
    reveal_with_fuel(stands, 38);
    reveal_with_fuel(lacks_before, 38);
}

proof fn lemma_current_packages_0()
    ensures
        nix::CURRENT_PACKAGES@.len() == 100,
{
    reveal_strlit(";
  pkgs = flake.legacyPackages.${builtins.currentSystem};
  lib = pkgs.lib;
  pkg = lib.attrByPath ");

}

proof fn lemma_current_packages_1()
    ensures
        stands(nix::CURRENT_PACKAGES@, ".legacyPackages.${builtins.currentSystem};"@, 16, 0),
{
    reveal_strlit(";
  pkgs = flake.legacyPackages.${builtins.currentSystem};
  lib = pkgs.lib;
  pkg = lib.attrByPath ");
    reveal_strlit(".legacyPackages.${builtins.currentSystem};");
    reveal_with_fuel(stands, 102);
}

proof fn lemma_current_packages_2()
    ensures
        lacks_before(nix::CURRENT_PACKAGES@, ".legacyPackages.${builtins.currentSystem};"@, 0, 16),
{
    reveal_strlit(";
  pkgs = flake.legacyPackages.${builtins.currentSystem};
  lib = pkgs.lib;
  pkg = lib.attrByPath ");
    reveal_strlit(".legacyPackages.${builtins.currentSystem};");
    reveal_with_fuel(lacks_before, 102);
}

proof fn lemma_current_packages_3()
    ensures
        stands(nix::CURRENT_PACKAGES@, "attrByPath "@, 89, 0),
{
    reveal_strlit(";
  pkgs = flake.legacyPackages.${builtins.currentSystem};
  lib = pkgs.lib;
  pkg = lib.attrByPath ");
    reveal_strlit("attrByPath ");
    reveal_with_fuel(stands, 102);
}

proof fn lemma_current_packages_4()
    ensures
        lacks_before(nix::CURRENT_PACKAGES@, "attrByPath "@, 0, 89),
{
    reveal_strlit(";
  pkgs = flake.legacyPackages.${builtins.currentSystem};
  lib = pkgs.lib;
  pkg = lib.attrByPath ");
    reveal_strlit("attrByPath ");
    reveal_with_fuel(lacks_before, 102);
}

proof fn lemma_current_packages_5()
    ensures
        code_lacks(nix::CURRENT_PACKAGES@, "(throw "@, 0),
{
    reveal_strlit(";
  pkgs = flake.legacyPackages.${builtins.currentSystem};
  lib = pkgs.lib;
  pkg = lib.attrByPath ");
    reveal_strlit("(throw ");
    reveal_with_fuel(code_lacks, 102);
    assert(code_lacks(nix::CURRENT_PACKAGES@, "(throw "@, 50));
}

proof fn lemma_current_packages()
    ensures
        nix::CURRENT_PACKAGES@.len() == 100,
        stands(nix::CURRENT_PACKAGES@, ".legacyPackages.${builtins.currentSystem};"@, 16, 0),
        lacks_before(nix::CURRENT_PACKAGES@, ".legacyPackages.${builtins.currentSystem};"@, 0, 16),
        stands(nix::CURRENT_PACKAGES@, "attrByPath "@, 89, 0),
        lacks_before(nix::CURRENT_PACKAGES@, "attrByPath "@, 0, 89),
        code_lacks(nix::CURRENT_PACKAGES@, "(throw "@, 0),
{
    lemma_current_packages_0();
    lemma_current_packages_1();
    lemma_current_packages_2();
    lemma_current_packages_3();
    lemma_current_packages_4();
    lemma_current_packages_5();
}

proof fn lemma_overlay_package()
    ensures
        nix::OVERLAY_PACKAGE@.len() == 44,
        stands(nix::OVERLAY_PACKAGE@, "path = "@, 37, 0),
        lacks_before(nix::OVERLAY_PACKAGE@, "path = "@, 0, 37),
        code_lacks(nix::OVERLAY_PACKAGE@, "pkg = lib.attrByPath path (throw "@, 0),
        code_lacks(nix::OVERLAY_PACKAGE@, "localSource = builtins.path {\n    path = "@, 0),
        code_lacks(nix::OVERLAY_PACKAGE@, "name = "@, 0),
        code_lacks(nix::OVERLAY_PACKAGE@, "baseNameOf path != "@, 0),
        code_lacks(nix::OVERLAY_PACKAGE@, "src = localSource;\n    patches = [];"@, 0),
{
    reveal_strlit("final: prev:
let
  lib = prev.lib;
  path = ");
    reveal_strlit("path = ");
    reveal_strlit("pkg = lib.attrByPath path (throw ");
    reveal_strlit("localSource = builtins.path {\n    path = ");
    reveal_strlit("name = ");
    reveal_strlit("baseNameOf path != ");
    reveal_strlit("src = localSource;\n    patches = [];");
    reveal_with_fuel(code_lacks, 46);
    reveal_with_fuel(stands, 46);
    reveal_with_fuel(lacks_before, 46);
}

proof fn lemma_overlay_throw()
    ensures
        nix::OVERLAY_THROW@.len() == 37,
        stands(nix::OVERLAY_THROW@, "pkg = lib.attrByPath path (throw "@, 4, 0),
        lacks_before(nix::OVERLAY_THROW@, "pkg = lib.attrByPath path (throw "@, 0, 4),
        code_lacks(nix::OVERLAY_THROW@, "localSource = builtins.path {\n    path = "@, 0),
        code_lacks(nix::OVERLAY_THROW@, "name = "@, 0),
        code_lacks(nix::OVERLAY_THROW@, "baseNameOf path != "@, 0),
        code_lacks(nix::OVERLAY_THROW@, "src = localSource;\n    patches = [];"@, 0),
{
    reveal_strlit(";
  pkg = lib.attrByPath path (throw ");
    reveal_strlit("pkg = lib.attrByPath path (throw ");
    reveal_strlit("localSource = builtins.path {\n    path = ");
    reveal_strlit("name = ");
    reveal_strlit("baseNameOf path != ");
    reveal_strlit("src = localSource;\n    patches = [];");
    reveal_with_fuel(code_lacks, 39);
    reveal_with_fuel(stands, 39);
    reveal_with_fuel(lacks_before, 39);
}

proof fn lemma_overlay_source()
    ensures
        nix::OVERLAY_SOURCE@.len() == 51,
        stands(nix::OVERLAY_SOURCE@, "localSource = builtins.path {\n    path = "@, 10, 0),
        lacks_before(nix::OVERLAY_SOURCE@, "localSource = builtins.path {\n    path = "@, 0, 10),
        code_lacks(nix::OVERLAY_SOURCE@, "name = "@, 0),
        code_lacks(nix::OVERLAY_SOURCE@, "baseNameOf path != "@, 0),
        code_lacks(nix::OVERLAY_SOURCE@, "src = localSource;\n    patches = [];"@, 0),
{
    reveal_strlit(") prev;
  localSource = builtins.path {
    path = ");
    reveal_strlit("localSource = builtins.path {\n    path = ");
    reveal_strlit("name = ");
    reveal_strlit("baseNameOf path != ");
    reveal_strlit("src = localSource;\n    patches = [];");
    reveal_with_fuel(code_lacks, 53);
    reveal_with_fuel(stands, 53);
    reveal_with_fuel(lacks_before, 53);
}

proof fn lemma_overlay_body()
    ensures
        nix::OVERLAY_BODY@.len() == 460,
        stands(nix::OVERLAY_BODY@, "src = localSource;\n    patches = [];"@, 39, 0),
        lacks_before(nix::OVERLAY_BODY@, "src = localSource;\n    patches = [];"@, 0, 39),
{
    reveal_strlit("  fork = pkg.overrideAttrs (old: {
    src = localSource;
    patches = [];
    prePatch = \"\";
    postPatch = \"\";
    patchPhase = \"runHook prePatch\\nrunHook postPatch\\n\";
    unpackPhase = \"runHook preUnpack\\ncp -a --reflink=auto \\\"$src\\\" source\\nchmod -R u+w source\\nsourceRoot=source\\nrunHook postUnpack\\n\";
  });
in
  builtins.intersectAttrs { ${builtins.head path} = null; }
    (lib.updateManyAttrsByPath [ { inherit path; update = old: fork; } ] prev)
");
    reveal_strlit("src = localSource;\n    patches = [];");
    reveal_with_fuel(stands, 41);
    reveal_with_fuel(lacks_before, 41);
}

spec fn package_parts(installable: InstallableView, tail: Text) -> Seq<Part> {
    seq![
        Part::Code(nix::LET_FLAKE@),
        Part::Str(installable.flake_ref),
        Part::Code(nix::CURRENT_PACKAGES@),
        Part::List(installable.attr_path),
        Part::Code(nix::OR_THROW@),
        Part::Str("package attribute not found: "@ + installable.attribute),
        Part::Code(tail),
    ]
}

#[verifier::rlimit(60)]
proof fn lemma_package_written(installable: InstallableView, tail: Text)
    ensures
        nix::package_expression(installable, tail) == written(package_parts(installable, tail), 0),
{
    let parts = package_parts(installable, tail);
    assert(nix::package_expression(installable, tail) == written(parts, 0)) by {
        let none = Seq::<char>::empty();
        assert(written(parts, 7) =~= none);
        let e0 = written_part(parts[0]);
        lemma_next_part(e0, parts, 1);
        let e1 = e0 + written_part(parts[1]);
        lemma_next_part(e1, parts, 2);
        let e2 = e1 + written_part(parts[2]);
        lemma_next_part(e2, parts, 3);
        let e3 = e2 + written_part(parts[3]);
        lemma_next_part(e3, parts, 4);
        let e4 = e3 + written_part(parts[4]);
        lemma_next_part(e4, parts, 5);
        let e5 = e4 + written_part(parts[5]);
        lemma_next_part(e5, parts, 6);
        let e6 = e5 + written_part(parts[6]);
        assert(e6 + written(parts, 7) =~= e6);
    }
}

proof fn lemma_package_reads_flake(installable: InstallableView, tail: Text)
    ensures
        string_after(
            nix::package_expression(installable, tail),
            "builtins.getFlake "@,
        ) == Some(installable.flake_ref),
{
    let parts = package_parts(installable, tail);
    reveal_strlit("builtins.getFlake ");
    lemma_let_flake();
    assert forall|i: int| 0 <= i < 0 implies lacks(#[trigger] parts[i], "builtins.getFlake "@) by {
    }
    lemma_string_found(parts, 0, 15, "builtins.getFlake "@);
    lemma_package_written(installable, tail);
}

proof fn lemma_package_reads_cur(installable: InstallableView, tail: Text)
    ensures
        after(
            nix::package_expression(installable, tail),
            ".legacyPackages.${builtins.currentSystem};"@,
        ) is Some,
{
    let parts = package_parts(installable, tail);
    reveal_strlit(".legacyPackages.${builtins.currentSystem};");
    lemma_let_flake();
    lemma_current_packages();
    assert forall|i: int| 0 <= i < 2 implies lacks(#[trigger] parts[i], ".legacyPackages.${builtins.currentSystem};"@) by {
        assert(lacks(parts[0], ".legacyPackages.${builtins.currentSystem};"@));
        assert(lacks(parts[1], ".legacyPackages.${builtins.currentSystem};"@));
    }
    lemma_found(parts, 0, 2, 16, ".legacyPackages.${builtins.currentSystem};"@);
    lemma_package_written(installable, tail);
}

proof fn lemma_package_reads_attr(installable: InstallableView, tail: Text)
    ensures
        list_after(
            nix::package_expression(installable, tail),
            "attrByPath "@,
        ) == Some(installable.attr_path),
{
    let parts = package_parts(installable, tail);
    reveal_strlit("attrByPath ");
    lemma_let_flake();
    lemma_current_packages();
    assert forall|i: int| 0 <= i < 2 implies lacks(#[trigger] parts[i], "attrByPath "@) by {
        assert(lacks(parts[0], "attrByPath "@));
        assert(lacks(parts[1], "attrByPath "@));
    }
    lemma_list_found(parts, 2, 89, "attrByPath "@);
    lemma_package_written(installable, tail);
}

proof fn lemma_package_reads_throw(installable: InstallableView, tail: Text)
    ensures
        string_after(
            nix::package_expression(installable, tail),
            "(throw "@,
        ) == Some("package attribute not found: "@ + installable.attribute),
{
    let parts = package_parts(installable, tail);
    reveal_strlit("(throw ");
    lemma_let_flake();
    lemma_current_packages();
    lemma_or_throw();
    assert forall|i: int| 0 <= i < 4 implies lacks(#[trigger] parts[i], "(throw "@) by {
        assert(lacks(parts[0], "(throw "@));
        assert(lacks(parts[1], "(throw "@));
        assert(lacks(parts[2], "(throw "@));
        assert(lacks(parts[3], "(throw "@));
    }
    lemma_string_found(parts, 4, 1, "(throw "@);
    lemma_package_written(installable, tail);
}

spec fn fork_parts(m: MetadataView, source: Text) -> Seq<Part> {
    seq![
        Part::Code(nix::LET_FLAKE@),
        Part::Str(m.package.flake_ref),
        Part::Code(nix::SYSTEM_PACKAGES@),
        Part::Str(m.package.system),
        Part::Code(nix::SYSTEM_PACKAGE@),
        Part::List(nix::attribute_path(m.package.attribute)),
        Part::Code(nix::OR_THROW@),
        Part::Str("package attribute not found: "@ + m.package.attribute),
        Part::Code(nix::LOCAL_SOURCE@),
        Part::Str(source),
        Part::Code(nix::LOCAL_NAME@),
        Part::Str(nix::local_name_of(m)),
        Part::Code(filter_head()),
        Part::Str(".git"@),
        Part::Code(filter_tail()),
        Part::Code(nix::BUILD_BODY@),
    ]
}

#[verifier::rlimit(60)]
proof fn lemma_fork_written(m: MetadataView, source: Text)
    ensures
        nix::fork_expression(m, source) == written(fork_parts(m, source), 0),
{
    let parts = fork_parts(m, source);
    lemma_filter();
    assert(nix::fork_expression(m, source) == written(parts, 0)) by {
        let none = Seq::<char>::empty();
        assert(written(parts, 16) =~= none);
        let e0 = written_part(parts[0]);
        lemma_next_part(e0, parts, 1);
        let e1 = e0 + written_part(parts[1]);
        lemma_next_part(e1, parts, 2);
        let e2 = e1 + written_part(parts[2]);
        lemma_next_part(e2, parts, 3);
        let e3 = e2 + written_part(parts[3]);
        lemma_next_part(e3, parts, 4);
        let e4 = e3 + written_part(parts[4]);
        lemma_next_part(e4, parts, 5);
        let e5 = e4 + written_part(parts[5]);
        lemma_next_part(e5, parts, 6);
        let e6 = e5 + written_part(parts[6]);
        lemma_next_part(e6, parts, 7);
        let e7 = e6 + written_part(parts[7]);
        lemma_next_part(e7, parts, 8);
        let e8 = e7 + written_part(parts[8]);
        lemma_next_part(e8, parts, 9);
        let e9 = e8 + written_part(parts[9]);
        lemma_next_part(e9, parts, 10);
        let e10 = e9 + written_part(parts[10]);
        lemma_next_part(e10, parts, 11);
        let e11 = e10 + written_part(parts[11]);
        lemma_next_part(e11, parts, 12);
        let e12 = e11 + written_part(parts[12]);
        lemma_next_part(e12, parts, 13);
        let e13 = e12 + written_part(parts[13]);
        lemma_next_part(e13, parts, 14);
        let e14 = e13 + written_part(parts[14]);
        lemma_next_part(e14, parts, 15);
        let e15 = e14 + written_part(parts[15]);
        assert(e15 + written(parts, 16) =~= e15);
        let local = nix::local_source(m, source);
        assert(local =~= written_part(parts[9]) + written_part(parts[10]) + written_part(parts[11])
            + written_part(parts[12]) + written_part(parts[13]) + written_part(parts[14]));
        assert(e14 =~= e8 + local);
    }
}

proof fn lemma_fork_reads_flake(m: MetadataView, source: Text)
    ensures
        string_after(
            nix::fork_expression(m, source),
            "builtins.getFlake "@,
        ) == Some(m.package.flake_ref),
{
    let parts = fork_parts(m, source);
    reveal_strlit("builtins.getFlake ");
    lemma_let_flake();
    assert forall|i: int| 0 <= i < 0 implies lacks(#[trigger] parts[i], "builtins.getFlake "@) by {
    }
    lemma_string_found(parts, 0, 15, "builtins.getFlake "@);
    lemma_fork_written(m, source);
}

proof fn lemma_fork_reads_system(m: MetadataView, source: Text)
    ensures
        string_after(
            nix::fork_expression(m, source),
            ".legacyPackages.${"@,
        ) == Some(m.package.system),
{
    let parts = fork_parts(m, source);
    reveal_strlit(".legacyPackages.${");
    lemma_let_flake();
    lemma_system_packages();
    assert forall|i: int| 0 <= i < 2 implies lacks(#[trigger] parts[i], ".legacyPackages.${"@) by {
        assert(lacks(parts[0], ".legacyPackages.${"@));
        assert(lacks(parts[1], ".legacyPackages.${"@));
    }
    lemma_string_found(parts, 2, 16, ".legacyPackages.${"@);
    lemma_fork_written(m, source);
}

proof fn lemma_fork_reads_attr(m: MetadataView, source: Text)
    ensures
        list_after(
            nix::fork_expression(m, source),
            "attrByPath "@,
        ) == Some(nix::attribute_path(m.package.attribute)),
{
    let parts = fork_parts(m, source);
    reveal_strlit("attrByPath ");
    lemma_let_flake();
    lemma_system_packages();
    lemma_system_package();
    assert forall|i: int| 0 <= i < 4 implies lacks(#[trigger] parts[i], "attrByPath "@) by {
        assert(lacks(parts[0], "attrByPath "@));
        assert(lacks(parts[1], "attrByPath "@));
        assert(lacks(parts[2], "attrByPath "@));
        assert(lacks(parts[3], "attrByPath "@));
    }
    lemma_list_found(parts, 4, 33, "attrByPath "@);
    lemma_fork_written(m, source);
}

proof fn lemma_fork_reads_throw(m: MetadataView, source: Text)
    ensures
        string_after(
            nix::fork_expression(m, source),
            "(throw "@,
        ) == Some("package attribute not found: "@ + m.package.attribute),
{
    let parts = fork_parts(m, source);
    reveal_strlit("(throw ");
    lemma_let_flake();
    lemma_system_packages();
    lemma_system_package();
    lemma_or_throw();
    assert forall|i: int| 0 <= i < 6 implies lacks(#[trigger] parts[i], "(throw "@) by {
        assert(lacks(parts[0], "(throw "@));
        assert(lacks(parts[1], "(throw "@));
        assert(lacks(parts[2], "(throw "@));
        assert(lacks(parts[3], "(throw "@));
        assert(lacks(parts[4], "(throw "@));
        assert(lacks(parts[5], "(throw "@));
    }
    lemma_string_found(parts, 6, 1, "(throw "@);
    lemma_fork_written(m, source);
}

#[verifier::rlimit(60)]
#[verifier::spinoff_prover]
proof fn lemma_fork_reads_source(m: MetadataView, source: Text)
    ensures
        string_after(
            nix::fork_expression(m, source),
            "localSource = builtins.path {\n    path = "@,
        ) == Some(source),
{
    let parts = fork_parts(m, source);
    reveal_strlit("localSource = builtins.path {\n    path = ");
    lemma_let_flake();
    lemma_system_packages();
    lemma_system_package();
    lemma_or_throw();
    lemma_local_source();
    assert forall|i: int| 0 <= i < 8 implies lacks(#[trigger] parts[i], "localSource = builtins.path {\n    path = "@) by {
        assert(lacks(parts[0], "localSource = builtins.path {\n    path = "@));
        assert(lacks(parts[1], "localSource = builtins.path {\n    path = "@));
        assert(lacks(parts[2], "localSource = builtins.path {\n    path = "@));
        assert(lacks(parts[3], "localSource = builtins.path {\n    path = "@));
        assert(lacks(parts[4], "localSource = builtins.path {\n    path = "@));
        assert(lacks(parts[5], "localSource = builtins.path {\n    path = "@));
        assert(lacks(parts[6], "localSource = builtins.path {\n    path = "@));
        assert(lacks(parts[7], "localSource = builtins.path {\n    path = "@));
    }
    lemma_string_found(parts, 8, 10, "localSource = builtins.path {\n    path = "@);
    lemma_fork_written(m, source);
}

#[verifier::rlimit(60)]
#[verifier::spinoff_prover]
proof fn lemma_fork_reads_name(m: MetadataView, source: Text)
    ensures
        string_after(nix::fork_expression(m, source), "name = "@) == Some(nix::local_name_of(m)),
{
    let parts = fork_parts(m, source);
    reveal_strlit("name = ");
    lemma_let_flake();
    lemma_system_packages();
    lemma_system_package();
    lemma_or_throw();
    lemma_local_source();
    lemma_local_name();
    assert forall|i: int| 0 <= i < 10 implies lacks(#[trigger] parts[i], "name = "@) by {
        assert(lacks(parts[0], "name = "@));
        assert(lacks(parts[1], "name = "@));
        assert(lacks(parts[2], "name = "@));
        assert(lacks(parts[3], "name = "@));
        assert(lacks(parts[4], "name = "@));
        assert(lacks(parts[5], "name = "@));
        assert(lacks(parts[6], "name = "@));
        assert(lacks(parts[7], "name = "@));
        assert(lacks(parts[8], "name = "@));
        assert(lacks(parts[9], "name = "@));
    }
    lemma_string_found(parts, 10, 6, "name = "@);
    lemma_fork_written(m, source);
}

#[verifier::rlimit(60)]
#[verifier::spinoff_prover]
proof fn lemma_fork_reads_filt(m: MetadataView, source: Text)
    ensures
        string_after(nix::fork_expression(m, source), "baseNameOf path != "@) == Some(".git"@),
{
    let parts = fork_parts(m, source);
    reveal_strlit("baseNameOf path != ");
    lemma_let_flake();
    lemma_system_packages();
    lemma_system_package();
    lemma_or_throw();
    lemma_local_source();
    lemma_local_name();
    lemma_filter_head();
    lemma_filter();
    assert forall|i: int| 0 <= i < 12 implies lacks(#[trigger] parts[i], "baseNameOf path != "@) by {
        assert(lacks(parts[0], "baseNameOf path != "@));
        assert(lacks(parts[1], "baseNameOf path != "@));
        assert(lacks(parts[2], "baseNameOf path != "@));
        assert(lacks(parts[3], "baseNameOf path != "@));
        assert(lacks(parts[4], "baseNameOf path != "@));
        assert(lacks(parts[5], "baseNameOf path != "@));
        assert(lacks(parts[6], "baseNameOf path != "@));
        assert(lacks(parts[7], "baseNameOf path != "@));
        assert(lacks(parts[8], "baseNameOf path != "@));
        assert(lacks(parts[9], "baseNameOf path != "@));
        assert(lacks(parts[10], "baseNameOf path != "@));
        assert(lacks(parts[11], "baseNameOf path != "@));
    }
    lemma_string_found(parts, 12, 27, "baseNameOf path != "@);
    lemma_fork_written(m, source);
}

#[verifier::rlimit(60)]
#[verifier::spinoff_prover]
proof fn lemma_fork_reads_src(m: MetadataView, source: Text)
    ensures
        after(nix::fork_expression(m, source), "src = localSource;\n    patches = [];"@) is Some,
{
    let parts = fork_parts(m, source);
    reveal_strlit("src = localSource;\n    patches = [];");
    lemma_let_flake();
    lemma_system_packages();
    lemma_system_package();
    lemma_or_throw();
    lemma_local_source();
    lemma_local_name();
    lemma_filter_head();
    lemma_filter_tail();
    lemma_build_body();
    lemma_filter();
    assert forall|i: int| 0 <= i < 15 implies lacks(#[trigger] parts[i], "src = localSource;\n    patches = [];"@) by {
        assert(lacks(parts[0], "src = localSource;\n    patches = [];"@));
        assert(lacks(parts[1], "src = localSource;\n    patches = [];"@));
        assert(lacks(parts[2], "src = localSource;\n    patches = [];"@));
        assert(lacks(parts[3], "src = localSource;\n    patches = [];"@));
        assert(lacks(parts[4], "src = localSource;\n    patches = [];"@));
        assert(lacks(parts[5], "src = localSource;\n    patches = [];"@));
        assert(lacks(parts[6], "src = localSource;\n    patches = [];"@));
        assert(lacks(parts[7], "src = localSource;\n    patches = [];"@));
        assert(lacks(parts[8], "src = localSource;\n    patches = [];"@));
        assert(lacks(parts[9], "src = localSource;\n    patches = [];"@));
        assert(lacks(parts[10], "src = localSource;\n    patches = [];"@));
        assert(lacks(parts[11], "src = localSource;\n    patches = [];"@));
        assert(lacks(parts[12], "src = localSource;\n    patches = [];"@));
        assert(lacks(parts[13], "src = localSource;\n    patches = [];"@));
        assert(lacks(parts[14], "src = localSource;\n    patches = [];"@));
    }
    lemma_found(parts, 0, 15, 35, "src = localSource;\n    patches = [];"@);
    lemma_fork_written(m, source);
}

spec fn overlay_parts(m: MetadataView, source: Text) -> Seq<Part> {
    seq![
        Part::Code(nix::OVERLAY_PACKAGE@),
        Part::List(nix::attribute_path(m.package.attribute)),
        Part::Code(nix::OVERLAY_THROW@),
        Part::Str("package attribute not found: "@ + m.package.attribute),
        Part::Code(nix::OVERLAY_SOURCE@),
        Part::Str(source),
        Part::Code(nix::LOCAL_NAME@),
        Part::Str(nix::local_name_of(m)),
        Part::Code(filter_head()),
        Part::Str(".git"@),
        Part::Code(filter_tail()),
        Part::Code(nix::OVERLAY_BODY@),
    ]
}

#[verifier::rlimit(60)]
proof fn lemma_overlay_written(m: MetadataView, source: Text)
    ensures
        nix::overlay_expression(m, source) == written(overlay_parts(m, source), 0),
{
    let parts = overlay_parts(m, source);
    lemma_filter();
    assert(nix::overlay_expression(m, source) == written(parts, 0)) by {
        let none = Seq::<char>::empty();
        assert(written(parts, 12) =~= none);
        let e0 = written_part(parts[0]);
        lemma_next_part(e0, parts, 1);
        let e1 = e0 + written_part(parts[1]);
        lemma_next_part(e1, parts, 2);
        let e2 = e1 + written_part(parts[2]);
        lemma_next_part(e2, parts, 3);
        let e3 = e2 + written_part(parts[3]);
        lemma_next_part(e3, parts, 4);
        let e4 = e3 + written_part(parts[4]);
        lemma_next_part(e4, parts, 5);
        let e5 = e4 + written_part(parts[5]);
        lemma_next_part(e5, parts, 6);
        let e6 = e5 + written_part(parts[6]);
        lemma_next_part(e6, parts, 7);
        let e7 = e6 + written_part(parts[7]);
        lemma_next_part(e7, parts, 8);
        let e8 = e7 + written_part(parts[8]);
        lemma_next_part(e8, parts, 9);
        let e9 = e8 + written_part(parts[9]);
        lemma_next_part(e9, parts, 10);
        let e10 = e9 + written_part(parts[10]);
        lemma_next_part(e10, parts, 11);
        let e11 = e10 + written_part(parts[11]);
        assert(e11 + written(parts, 12) =~= e11);
        let local = nix::local_source(m, source);
        assert(local =~= written_part(parts[5]) + written_part(parts[6]) + written_part(parts[7])
            + written_part(parts[8]) + written_part(parts[9]) + written_part(parts[10]));
        assert(e10 =~= e4 + local);
    }
}

proof fn lemma_overlay_reads_path(m: MetadataView, source: Text)
    ensures
        list_after(
            nix::overlay_expression(m, source),
            "path = "@,
        ) == Some(nix::attribute_path(m.package.attribute)),
{
    let parts = overlay_parts(m, source);
    reveal_strlit("path = ");
    lemma_overlay_package();
    assert forall|i: int| 0 <= i < 0 implies lacks(#[trigger] parts[i], "path = "@) by {
    }
    lemma_list_found(parts, 0, 37, "path = "@);
    lemma_overlay_written(m, source);
}

proof fn lemma_overlay_reads_opath(m: MetadataView, source: Text)
    ensures
        string_after(
            nix::overlay_expression(m, source),
            "pkg = lib.attrByPath path (throw "@,
        ) == Some("package attribute not found: "@ + m.package.attribute),
{
    let parts = overlay_parts(m, source);
    reveal_strlit("pkg = lib.attrByPath path (throw ");
    lemma_overlay_package();
    lemma_overlay_throw();
    assert forall|i: int| 0 <= i < 2 implies lacks(#[trigger] parts[i], "pkg = lib.attrByPath path (throw "@) by {
        assert(lacks(parts[0], "pkg = lib.attrByPath path (throw "@));
        assert(lacks(parts[1], "pkg = lib.attrByPath path (throw "@));
    }
    lemma_string_found(parts, 2, 4, "pkg = lib.attrByPath path (throw "@);
    lemma_overlay_written(m, source);
}

proof fn lemma_overlay_reads_source(m: MetadataView, source: Text)
    ensures
        string_after(
            nix::overlay_expression(m, source),
            "localSource = builtins.path {\n    path = "@,
        ) == Some(source),
{
    let parts = overlay_parts(m, source);
    reveal_strlit("localSource = builtins.path {\n    path = ");
    lemma_overlay_package();
    lemma_overlay_throw();
    lemma_overlay_source();
    assert forall|i: int| 0 <= i < 4 implies lacks(#[trigger] parts[i], "localSource = builtins.path {\n    path = "@) by {
        assert(lacks(parts[0], "localSource = builtins.path {\n    path = "@));
        assert(lacks(parts[1], "localSource = builtins.path {\n    path = "@));
        assert(lacks(parts[2], "localSource = builtins.path {\n    path = "@));
        assert(lacks(parts[3], "localSource = builtins.path {\n    path = "@));
    }
    lemma_string_found(parts, 4, 10, "localSource = builtins.path {\n    path = "@);
    lemma_overlay_written(m, source);
}

proof fn lemma_overlay_reads_name(m: MetadataView, source: Text)
    ensures
        string_after(nix::overlay_expression(m, source), "name = "@) == Some(nix::local_name_of(m)),
{
    let parts = overlay_parts(m, source);
    reveal_strlit("name = ");
    lemma_overlay_package();
    lemma_overlay_throw();
    lemma_overlay_source();
    lemma_local_name();
    assert forall|i: int| 0 <= i < 6 implies lacks(#[trigger] parts[i], "name = "@) by {
        assert(lacks(parts[0], "name = "@));
        assert(lacks(parts[1], "name = "@));
        assert(lacks(parts[2], "name = "@));
        assert(lacks(parts[3], "name = "@));
        assert(lacks(parts[4], "name = "@));
        assert(lacks(parts[5], "name = "@));
    }
    lemma_string_found(parts, 6, 6, "name = "@);
    lemma_overlay_written(m, source);
}

#[verifier::rlimit(60)]
#[verifier::spinoff_prover]
proof fn lemma_overlay_reads_filt(m: MetadataView, source: Text)
    ensures
        string_after(nix::overlay_expression(m, source), "baseNameOf path != "@) == Some(".git"@),
{
    let parts = overlay_parts(m, source);
    reveal_strlit("baseNameOf path != ");
    lemma_overlay_package();
    lemma_overlay_throw();
    lemma_overlay_source();
    lemma_local_name();
    lemma_filter_head();
    lemma_filter();
    assert forall|i: int| 0 <= i < 8 implies lacks(#[trigger] parts[i], "baseNameOf path != "@) by {
        assert(lacks(parts[0], "baseNameOf path != "@));
        assert(lacks(parts[1], "baseNameOf path != "@));
        assert(lacks(parts[2], "baseNameOf path != "@));
        assert(lacks(parts[3], "baseNameOf path != "@));
        assert(lacks(parts[4], "baseNameOf path != "@));
        assert(lacks(parts[5], "baseNameOf path != "@));
        assert(lacks(parts[6], "baseNameOf path != "@));
        assert(lacks(parts[7], "baseNameOf path != "@));
    }
    lemma_string_found(parts, 8, 27, "baseNameOf path != "@);
    lemma_overlay_written(m, source);
}

#[verifier::rlimit(60)]
#[verifier::spinoff_prover]
proof fn lemma_overlay_reads_src(m: MetadataView, source: Text)
    ensures
        after(nix::overlay_expression(m, source), "src = localSource;\n    patches = [];"@) is Some,
{
    let parts = overlay_parts(m, source);
    reveal_strlit("src = localSource;\n    patches = [];");
    lemma_overlay_package();
    lemma_overlay_throw();
    lemma_overlay_source();
    lemma_local_name();
    lemma_filter_head();
    lemma_filter_tail();
    lemma_overlay_body();
    lemma_filter();
    assert forall|i: int| 0 <= i < 11 implies lacks(#[trigger] parts[i], "src = localSource;\n    patches = [];"@) by {
        assert(lacks(parts[0], "src = localSource;\n    patches = [];"@));
        assert(lacks(parts[1], "src = localSource;\n    patches = [];"@));
        assert(lacks(parts[2], "src = localSource;\n    patches = [];"@));
        assert(lacks(parts[3], "src = localSource;\n    patches = [];"@));
        assert(lacks(parts[4], "src = localSource;\n    patches = [];"@));
        assert(lacks(parts[5], "src = localSource;\n    patches = [];"@));
        assert(lacks(parts[6], "src = localSource;\n    patches = [];"@));
        assert(lacks(parts[7], "src = localSource;\n    patches = [];"@));
        assert(lacks(parts[8], "src = localSource;\n    patches = [];"@));
        assert(lacks(parts[9], "src = localSource;\n    patches = [];"@));
        assert(lacks(parts[10], "src = localSource;\n    patches = [];"@));
    }
    lemma_found(parts, 0, 11, 39, "src = localSource;\n    patches = [];"@);
    lemma_overlay_written(m, source);
}

// ---- What the expressions look up

proof fn lemma_package_read(installable: InstallableView, tail: Text)
    ensures
        string_after(nix::package_expression(installable, tail), "builtins.getFlake "@) == Some(
            installable.flake_ref,
        ),
        after(
            nix::package_expression(installable, tail),
            ".legacyPackages.${builtins.currentSystem};"@,
        ) is Some,
        list_after(nix::package_expression(installable, tail), "attrByPath "@) == Some(
            installable.attr_path,
        ),
        string_after(nix::package_expression(installable, tail), "(throw "@) == Some(
            "package attribute not found: "@ + installable.attribute,
        ),
{
    lemma_package_reads_flake(installable, tail);
    lemma_package_reads_cur(installable, tail);
    lemma_package_reads_attr(installable, tail);
    lemma_package_reads_throw(installable, tail);
}

/// Whether an expression looks a package up where an installable says: in its flake, under
/// its attribute path. Where there is none, the expression fails with the attribute's name.
pub open spec fn looks_up(
    expression: Text,
    flake_ref: Text,
    attr_path: Seq<Text>,
    attribute: Text,
) -> bool {
    &&& string_after(expression, "builtins.getFlake "@) == Some(flake_ref)
    &&& list_after(expression, "attrByPath "@) == Some(attr_path)
    &&& string_after(expression, "(throw "@) == Some("package attribute not found: "@ + attribute)
}

/// The last argument of a nix command, where the one before it says that it is an expression.
pub open spec fn expression_in(arguments: Seq<Text>) -> Option<Text> {
    if arguments.len() >= 2 && arguments[arguments.len() - 2] == "--expr"@ {
        Some(arguments.last())
    } else {
        None
    }
}

/// A package is evaluated, and its source materialized, in the flake and under the attribute
/// path of its installable, for the system that nix runs on.
pub proof fn packages_are_looked_up_where_installables_say(installable: InstallableView)
    ensures
        expression_in(nix::evaluation_arguments(installable)) matches Some(expression) && {
            &&& looks_up(
                expression,
                installable.flake_ref,
                installable.attr_path,
                installable.attribute,
            )
            &&& after(expression, ".legacyPackages.${builtins.currentSystem};"@) is Some
        },
        nix::evaluation_arguments(installable).contains("eval"@),
        nix::evaluation_arguments(installable).contains("--json"@),
        expression_in(
            nix::build_arguments(nix::materialization(installable)),
        ) matches Some(expression) && {
            &&& looks_up(
                expression,
                installable.flake_ref,
                installable.attr_path,
                installable.attribute,
            )
            &&& after(expression, ".legacyPackages.${builtins.currentSystem};"@) is Some
        },
{
    lemma_package_read(installable, nix::EVALUATED@);
    lemma_package_read(installable, nix::MATERIALIZED@);
    let arguments = nix::evaluation_arguments(installable);
    assert(arguments[2] == "eval"@ && arguments[3] == "--json"@);
}

proof fn lemma_fork_read(m: MetadataView, source: Text)
    ensures
        looks_up(
            nix::fork_expression(m, source),
            m.package.flake_ref,
            nix::attribute_path(m.package.attribute),
            m.package.attribute,
        ),
        string_after(nix::fork_expression(m, source), ".legacyPackages.${"@) == Some(
            m.package.system,
        ),
        string_after(
            nix::fork_expression(m, source),
            "localSource = builtins.path {\n    path = "@,
        ) == Some(source),
        string_after(nix::fork_expression(m, source), "name = "@) == Some(
            nix::local_name_of(m),
        ),
        string_after(nix::fork_expression(m, source), "baseNameOf path != "@) == Some(
            ".git"@,
        ),
        after(
            nix::fork_expression(m, source),
            "src = localSource;\n    patches = [];"@,
        ) is Some,
{
    lemma_fork_reads_flake(m, source);
    lemma_fork_reads_system(m, source);
    lemma_fork_reads_attr(m, source);
    lemma_fork_reads_throw(m, source);
    lemma_fork_reads_source(m, source);
    lemma_fork_reads_name(m, source);
    lemma_fork_reads_filt(m, source);
    lemma_fork_reads_src(m, source);
}

/// A fork is built from what its metadata names: the package of that flake, system and
/// attribute path, with the resolved source of the fork, all but its Git directory, in the
/// place of its own and without patches. It is built exactly where the metadata names an
/// attribute and the source could be resolved.
pub proof fn forks_are_built_from_their_source(
    m: MetadataView,
    source_path: Text,
    read: PathReadView,
)
    ensures
        (nix::fork_build(m, source_path, read) is Ok) == (nix::attribute_path(
            m.package.attribute,
        ).len() > 0 && read is Resolved),
        nix::fork_build(m, source_path, read) matches Ok(arguments) ==> {
            &&& arguments.contains("build"@)
            &&& arguments.contains("--print-out-paths"@)
            &&& expression_in(arguments) matches Some(expression) && {
                &&& looks_up(
                    expression,
                    m.package.flake_ref,
                    nix::attribute_path(m.package.attribute),
                    m.package.attribute,
                )
                &&& string_after(expression, ".legacyPackages.${"@) == Some(m.package.system)
                &&& string_after(
                    expression,
                    "localSource = builtins.path {\n    path = "@,
                ) == Some(read->path)
                &&& string_after(expression, "baseNameOf path != "@) == Some(".git"@)
                &&& after(
                    expression,
                    "src = localSource;\n    patches = [];"@,
                ) is Some
            }
        },
{
    if let Ok(arguments) = nix::fork_build(m, source_path, read) {
        lemma_fork_read(m, read->path);
        assert(arguments[2] == "build"@ && arguments[5] == "--print-out-paths"@);
    }
}

/// The name that a fork's source gets in the store tells of the package: its pname, else its
/// name.
pub proof fn local_sources_are_named_after_the_package(m: MetadataView, source: Text)
    ensures
        m.package.pname is Some ==> string_after(nix::fork_expression(m, source), "name = "@)
            == Some("forkpkg-local-source-"@ + m.package.pname->0),
        m.package.pname is None && m.package.name is Some ==> string_after(
            nix::fork_expression(m, source),
            "name = "@,
        ) == Some("forkpkg-local-source-"@ + m.package.name->0),
        m.package.pname is None && m.package.name is None ==> string_after(
            nix::fork_expression(m, source),
            "name = "@,
        ) == Some("forkpkg-local-source-package"@),
{
    lemma_fork_read(m, source);
    reveal_strlit("forkpkg-local-source-");
    reveal_strlit("package");
    reveal_strlit("forkpkg-local-source-package");
    assert("forkpkg-local-source-"@ + "package"@ =~= "forkpkg-local-source-package"@);
}

/// The overlay puts a fork in the place of the package at its attribute path: what it
/// replaces is found there, and is built from the same source as the fork itself.
pub proof fn overlays_build_what_forks_build(m: MetadataView, source_path: Text, read: PathReadView)
    ensures
        (nix::overlay_of(m, source_path, read) is Ok) == (nix::fork_build(m, source_path, read) is Ok),
        nix::overlay_of(m, source_path, read) matches Ok(overlay) ==> {
            let expression = expression_in(nix::fork_build(m, source_path, read)->Ok_0)->0;
            &&& list_after(overlay, "path = "@) == list_after(expression, "attrByPath "@)
            &&& string_after(overlay, "pkg = lib.attrByPath path (throw "@) == string_after(
                expression,
                "(throw "@,
            )
            &&& string_after(overlay, "localSource = builtins.path {\n    path = "@)
                == string_after(
                expression,
                "localSource = builtins.path {\n    path = "@,
            )
            &&& string_after(overlay, "name = "@) == string_after(expression, "name = "@)
            &&& string_after(overlay, "baseNameOf path != "@) == string_after(
                expression,
                "baseNameOf path != "@,
            )
            &&& after(overlay, "src = localSource;\n    patches = [];"@) is Some
        },
{
    if let Ok(overlay) = nix::overlay_of(m, source_path, read) {
        lemma_overlay_read(m, read->path);
        lemma_fork_read(m, read->path);
    }
}

proof fn lemma_overlay_read(m: MetadataView, source: Text)
    ensures
        list_after(nix::overlay_expression(m, source), "path = "@) == Some(
            nix::attribute_path(m.package.attribute),
        ),
        string_after(nix::overlay_expression(m, source), "pkg = lib.attrByPath path (throw "@)
            == Some("package attribute not found: "@ + m.package.attribute),
        string_after(
            nix::overlay_expression(m, source),
            "localSource = builtins.path {\n    path = "@,
        ) == Some(source),
        string_after(nix::overlay_expression(m, source), "name = "@) == Some(
            nix::local_name_of(m),
        ),
        string_after(nix::overlay_expression(m, source), "baseNameOf path != "@) == Some(
            ".git"@,
        ),
        after(
            nix::overlay_expression(m, source),
            "src = localSource;\n    patches = [];"@,
        ) is Some,
{
    lemma_overlay_reads_path(m, source);
    lemma_overlay_reads_opath(m, source);
    lemma_overlay_reads_source(m, source);
    lemma_overlay_reads_name(m, source);
    lemma_overlay_reads_filt(m, source);
    lemma_overlay_reads_src(m, source);
}

// ---- What the expressions do

proof fn lemma_stands_occurs(s: Text, word: Text, at: int)
    requires
        stands(s, word, at, 0),
        0 <= at <= s.len(),
        word.len() > 0,
    ensures
        text::occurs(s, word),
{
    lemma_split(s, word, at);
    assert(s.subrange(at, at + word.len()) =~= word);
    assert(text::occurs_at(s, word, at));
}

proof fn lemma_occurs_behind(head: Text, tail: Text, word: Text)
    requires
        text::occurs(tail, word),
    ensures
        text::occurs(head + tail, word),
{
    let i = choose|i: int| #[trigger] text::occurs_at(tail, word, i);
    let s = head + tail;
    let at = head.len() + i;
    assert(s.subrange(at, at + word.len()) =~= tail.subrange(i, i + word.len()));
    assert(text::occurs_at(s, word, at));
}

#[verifier::rlimit(60)]
#[verifier::spinoff_prover]
proof fn lemma_evaluated_holds()
    ensures
        text::occurs(nix::EVALUATED@, "system = builtins.currentSystem;"@),
        text::occurs(nix::EVALUATED@, "packageName = pkg.name or null;"@),
        text::occurs(nix::EVALUATED@, "packagePname = pkg.pname or null;"@),
        text::occurs(nix::EVALUATED@, "packageVersion = pkg.version or null;"@),
        text::occurs(nix::EVALUATED@, "derivation = toString pkg.drvPath;"@),
        text::occurs(nix::EVALUATED@, "output = toString pkg.outPath;"@),
        text::occurs(nix::EVALUATED@, "source = if src == null then null else toString src;"@),
        text::occurs(
            nix::EVALUATED@,
            "sourceRevision = if srcIsAttrs && src ? rev then src.rev else null;"@,
        ),
        text::occurs(nix::EVALUATED@, "if srcIsAttrs && src ? outputHash then src.outputHash"@),
        text::occurs(nix::EVALUATED@, "src = pkg.src or null;"@),
{
    reveal_strlit(") pkgs;
  src = pkg.src or null;
  srcIsAttrs = builtins.isAttrs src;
in {
  system = builtins.currentSystem;
  packageName = pkg.name or null;
  packagePname = pkg.pname or null;
  packageVersion = pkg.version or null;
  derivation = toString pkg.drvPath;
  output = toString pkg.outPath;
  source = if src == null then null else toString src;
  sourceRevision = if srcIsAttrs && src ? rev then src.rev else null;
  sourceHash =
    if srcIsAttrs && src ? outputHash then src.outputHash
    else if srcIsAttrs && src ? hash then src.hash
    else null;
}
");
    reveal_with_fuel(stands, 69);
    reveal_strlit("system = builtins.currentSystem;");
    assert(stands(nix::EVALUATED@, "system = builtins.currentSystem;"@, 77, 0));
    lemma_stands_occurs(nix::EVALUATED@, "system = builtins.currentSystem;"@, 77);
    reveal_strlit("packageName = pkg.name or null;");
    assert(stands(nix::EVALUATED@, "packageName = pkg.name or null;"@, 112, 0));
    lemma_stands_occurs(nix::EVALUATED@, "packageName = pkg.name or null;"@, 112);
    reveal_strlit("packagePname = pkg.pname or null;");
    assert(stands(nix::EVALUATED@, "packagePname = pkg.pname or null;"@, 146, 0));
    lemma_stands_occurs(nix::EVALUATED@, "packagePname = pkg.pname or null;"@, 146);
    reveal_strlit("packageVersion = pkg.version or null;");
    assert(stands(nix::EVALUATED@, "packageVersion = pkg.version or null;"@, 182, 0));
    lemma_stands_occurs(nix::EVALUATED@, "packageVersion = pkg.version or null;"@, 182);
    reveal_strlit("derivation = toString pkg.drvPath;");
    assert(stands(nix::EVALUATED@, "derivation = toString pkg.drvPath;"@, 222, 0));
    lemma_stands_occurs(nix::EVALUATED@, "derivation = toString pkg.drvPath;"@, 222);
    reveal_strlit("output = toString pkg.outPath;");
    assert(stands(nix::EVALUATED@, "output = toString pkg.outPath;"@, 259, 0));
    lemma_stands_occurs(nix::EVALUATED@, "output = toString pkg.outPath;"@, 259);
    reveal_strlit("source = if src == null then null else toString src;");
    assert(stands(nix::EVALUATED@, "source = if src == null then null else toString src;"@, 292, 0));
    lemma_stands_occurs(
        nix::EVALUATED@,
        "source = if src == null then null else toString src;"@,
        292,
    );
    reveal_strlit("sourceRevision = if srcIsAttrs && src ? rev then src.rev else null;");
    assert(stands(nix::EVALUATED@, "sourceRevision = if srcIsAttrs && src ? rev then src.rev else null;"@, 347, 0));
    lemma_stands_occurs(
        nix::EVALUATED@,
        "sourceRevision = if srcIsAttrs && src ? rev then src.rev else null;"@,
        347,
    );
    reveal_strlit("if srcIsAttrs && src ? outputHash then src.outputHash");
    assert(stands(nix::EVALUATED@, "if srcIsAttrs && src ? outputHash then src.outputHash"@, 434, 0));
    lemma_stands_occurs(
        nix::EVALUATED@,
        "if srcIsAttrs && src ? outputHash then src.outputHash"@,
        434,
    );
    reveal_strlit("src = pkg.src or null;");
    assert(stands(nix::EVALUATED@, "src = pkg.src or null;"@, 10, 0));
    lemma_stands_occurs(nix::EVALUATED@, "src = pkg.src or null;"@, 10);
}

#[verifier::rlimit(60)]
#[verifier::spinoff_prover]
proof fn lemma_materialized_holds()
    ensures
        text::occurs(
            nix::MATERIALIZED@,
            "phases = [ \"unpackPhase\" \"patchPhase\" \"installPhase\" ];"@,
        ),
        text::occurs(nix::MATERIALIZED@, "outputs = [ \"out\" ];"@),
        text::occurs(nix::MATERIALIZED@, "cp -a . \\\"$out/\\\""@),
        text::occurs(nix::MATERIALIZED@, "dontFixup = true;"@),
{
    reveal_strlit(") pkgs;
in
  pkg.overrideAttrs (old: {
    name = ((old.pname or old.name) + \"-forkpkg-source\");
    outputs = [ \"out\" ];
    phases = [ \"unpackPhase\" \"patchPhase\" \"installPhase\" ];
    installPhase = \"runHook preInstall\\nmkdir -p \\\"$out\\\"\\nshopt -s dotglob nullglob\\ncp -a . \\\"$out/\\\"\\nrunHook postInstall\\n\";
    dontFixup = true;
    doCheck = false;
    doInstallCheck = false;
  })
");
    reveal_with_fuel(stands, 57);
    reveal_strlit("phases = [ \"unpackPhase\" \"patchPhase\" \"installPhase\" ];");
    assert(stands(nix::MATERIALIZED@, "phases = [ \"unpackPhase\" \"patchPhase\" \"installPhase\" ];"@, 126, 0));
    lemma_stands_occurs(
        nix::MATERIALIZED@,
        "phases = [ \"unpackPhase\" \"patchPhase\" \"installPhase\" ];"@,
        126,
    );
    reveal_strlit("outputs = [ \"out\" ];");
    assert(stands(nix::MATERIALIZED@, "outputs = [ \"out\" ];"@, 101, 0));
    lemma_stands_occurs(nix::MATERIALIZED@, "outputs = [ \"out\" ];"@, 101);
    reveal_strlit("cp -a . \\\"$out/\\\"");
    assert(stands(nix::MATERIALIZED@, "cp -a . \\\"$out/\\\""@, 268, 0));
    lemma_stands_occurs(nix::MATERIALIZED@, "cp -a . \\\"$out/\\\""@, 268);
    reveal_strlit("dontFixup = true;");
    assert(stands(nix::MATERIALIZED@, "dontFixup = true;"@, 315, 0));
    lemma_stands_occurs(nix::MATERIALIZED@, "dontFixup = true;"@, 315);
}

#[verifier::rlimit(60)]
#[verifier::spinoff_prover]
proof fn lemma_build_body_holds()
    ensures
        text::occurs(nix::BUILD_BODY@, "prePatch = \"\";"@),
        text::occurs(nix::BUILD_BODY@, "postPatch = \"\";"@),
        text::occurs(
            nix::BUILD_BODY@,
            "patchPhase = \"runHook prePatch\\nrunHook postPatch\\n\";"@,
        ),
        text::occurs(nix::BUILD_BODY@, "cp -a --reflink=auto \\\"$src\\\" source"@),
        text::occurs(nix::BUILD_BODY@, "sourceRoot=source"@),
        text::occurs(nix::BUILD_BODY@, "chmod -R u+w source"@),
{
    reveal_strlit("in
  pkg.overrideAttrs (old: {
    src = localSource;
    patches = [];
    prePatch = \"\";
    postPatch = \"\";
    patchPhase = \"runHook prePatch\\nrunHook postPatch\\n\";
    unpackPhase = \"runHook preUnpack\\ncp -a --reflink=auto \\\"$src\\\" source\\nchmod -R u+w source\\nsourceRoot=source\\nrunHook postUnpack\\n\";
  })
");
    reveal_with_fuel(stands, 55);
    reveal_strlit("prePatch = \"\";");
    assert(stands(nix::BUILD_BODY@, "prePatch = \"\";"@, 76, 0));
    lemma_stands_occurs(nix::BUILD_BODY@, "prePatch = \"\";"@, 76);
    reveal_strlit("postPatch = \"\";");
    assert(stands(nix::BUILD_BODY@, "postPatch = \"\";"@, 95, 0));
    lemma_stands_occurs(nix::BUILD_BODY@, "postPatch = \"\";"@, 95);
    reveal_strlit("patchPhase = \"runHook prePatch\\nrunHook postPatch\\n\";");
    assert(stands(nix::BUILD_BODY@, "patchPhase = \"runHook prePatch\\nrunHook postPatch\\n\";"@, 115, 0));
    lemma_stands_occurs(
        nix::BUILD_BODY@,
        "patchPhase = \"runHook prePatch\\nrunHook postPatch\\n\";"@,
        115,
    );
    reveal_strlit("cp -a --reflink=auto \\\"$src\\\" source");
    assert(stands(nix::BUILD_BODY@, "cp -a --reflink=auto \\\"$src\\\" source"@, 207, 0));
    lemma_stands_occurs(nix::BUILD_BODY@, "cp -a --reflink=auto \\\"$src\\\" source"@, 207);
    reveal_strlit("sourceRoot=source");
    assert(stands(nix::BUILD_BODY@, "sourceRoot=source"@, 266, 0));
    lemma_stands_occurs(nix::BUILD_BODY@, "sourceRoot=source"@, 266);
    reveal_strlit("chmod -R u+w source");
    assert(stands(nix::BUILD_BODY@, "chmod -R u+w source"@, 245, 0));
    lemma_stands_occurs(nix::BUILD_BODY@, "chmod -R u+w source"@, 245);
}

#[verifier::rlimit(60)]
#[verifier::spinoff_prover]
proof fn lemma_overlay_body_holds()
    ensures
        text::occurs(nix::OVERLAY_BODY@, "update = old: fork;"@),
        text::occurs(nix::OVERLAY_BODY@, "inherit path;"@),
        text::occurs(
            nix::OVERLAY_BODY@,
            "builtins.intersectAttrs { ${builtins.head path} = null; }"@,
        ),
        text::occurs(nix::OVERLAY_BODY@, "prePatch = \"\";"@),
        text::occurs(nix::OVERLAY_BODY@, "postPatch = \"\";"@),
        text::occurs(
            nix::OVERLAY_BODY@,
            "patchPhase = \"runHook prePatch\\nrunHook postPatch\\n\";"@,
        ),
        text::occurs(nix::OVERLAY_BODY@, "cp -a --reflink=auto \\\"$src\\\" source"@),
        text::occurs(nix::OVERLAY_BODY@, "sourceRoot=source"@),
        text::occurs(nix::OVERLAY_BODY@, "chmod -R u+w source"@),
{
    reveal_strlit("  fork = pkg.overrideAttrs (old: {
    src = localSource;
    patches = [];
    prePatch = \"\";
    postPatch = \"\";
    patchPhase = \"runHook prePatch\\nrunHook postPatch\\n\";
    unpackPhase = \"runHook preUnpack\\ncp -a --reflink=auto \\\"$src\\\" source\\nchmod -R u+w source\\nsourceRoot=source\\nrunHook postUnpack\\n\";
  });
in
  builtins.intersectAttrs { ${builtins.head path} = null; }
    (lib.updateManyAttrsByPath [ { inherit path; update = old: fork; } ] prev)
");
    reveal_with_fuel(stands, 59);
    reveal_strlit("update = old: fork;");
    assert(stands(nix::OVERLAY_BODY@, "update = old: fork;"@, 430, 0));
    lemma_stands_occurs(nix::OVERLAY_BODY@, "update = old: fork;"@, 430);
    reveal_strlit("inherit path;");
    assert(stands(nix::OVERLAY_BODY@, "inherit path;"@, 416, 0));
    lemma_stands_occurs(nix::OVERLAY_BODY@, "inherit path;"@, 416);
    reveal_strlit("builtins.intersectAttrs { ${builtins.head path} = null; }");
    assert(stands(nix::OVERLAY_BODY@, "builtins.intersectAttrs { ${builtins.head path} = null; }"@, 323, 0));
    lemma_stands_occurs(
        nix::OVERLAY_BODY@,
        "builtins.intersectAttrs { ${builtins.head path} = null; }"@,
        323,
    );
    reveal_strlit("prePatch = \"\";");
    assert(stands(nix::OVERLAY_BODY@, "prePatch = \"\";"@, 80, 0));
    lemma_stands_occurs(nix::OVERLAY_BODY@, "prePatch = \"\";"@, 80);
    reveal_strlit("postPatch = \"\";");
    assert(stands(nix::OVERLAY_BODY@, "postPatch = \"\";"@, 99, 0));
    lemma_stands_occurs(nix::OVERLAY_BODY@, "postPatch = \"\";"@, 99);
    reveal_strlit("patchPhase = \"runHook prePatch\\nrunHook postPatch\\n\";");
    assert(stands(nix::OVERLAY_BODY@, "patchPhase = \"runHook prePatch\\nrunHook postPatch\\n\";"@, 119, 0));
    lemma_stands_occurs(
        nix::OVERLAY_BODY@,
        "patchPhase = \"runHook prePatch\\nrunHook postPatch\\n\";"@,
        119,
    );
    reveal_strlit("cp -a --reflink=auto \\\"$src\\\" source");
    assert(stands(nix::OVERLAY_BODY@, "cp -a --reflink=auto \\\"$src\\\" source"@, 211, 0));
    lemma_stands_occurs(nix::OVERLAY_BODY@, "cp -a --reflink=auto \\\"$src\\\" source"@, 211);
    reveal_strlit("sourceRoot=source");
    assert(stands(nix::OVERLAY_BODY@, "sourceRoot=source"@, 270, 0));
    lemma_stands_occurs(nix::OVERLAY_BODY@, "sourceRoot=source"@, 270);
    reveal_strlit("chmod -R u+w source");
    assert(stands(nix::OVERLAY_BODY@, "chmod -R u+w source"@, 249, 0));
    lemma_stands_occurs(nix::OVERLAY_BODY@, "chmod -R u+w source"@, 249);
}

/// Evaluating a package asks for its system, names, version, derivation and output, and for
/// its source with its revision and hash.
pub proof fn evaluations_ask_for_what_forks_remember(installable: InstallableView)
    ensures
        text::occurs(nix::evaluation(installable), "system = builtins.currentSystem;"@),
        text::occurs(nix::evaluation(installable), "packageName = pkg.name or null;"@),
        text::occurs(nix::evaluation(installable), "packagePname = pkg.pname or null;"@),
        text::occurs(nix::evaluation(installable), "packageVersion = pkg.version or null;"@),
        text::occurs(nix::evaluation(installable), "derivation = toString pkg.drvPath;"@),
        text::occurs(nix::evaluation(installable), "output = toString pkg.outPath;"@),
        text::occurs(
            nix::evaluation(installable),
            "source = if src == null then null else toString src;"@,
        ),
        text::occurs(
            nix::evaluation(installable),
            "sourceRevision = if srcIsAttrs && src ? rev then src.rev else null;"@,
        ),
        text::occurs(
            nix::evaluation(installable),
            "if srcIsAttrs && src ? outputHash then src.outputHash"@,
        ),
        text::occurs(nix::evaluation(installable), "src = pkg.src or null;"@),
{
    lemma_evaluated_holds();
    let head = nix::LET_FLAKE@ + nix::literal(installable.flake_ref) + nix::CURRENT_PACKAGES@
        + nix::literal_list(installable.attr_path) + nix::OR_THROW@ + nix::missing_attribute(
        installable.attribute,
    );
    lemma_occurs_behind(head, nix::EVALUATED@, "system = builtins.currentSystem;"@);
    lemma_occurs_behind(head, nix::EVALUATED@, "packageName = pkg.name or null;"@);
    lemma_occurs_behind(head, nix::EVALUATED@, "packagePname = pkg.pname or null;"@);
    lemma_occurs_behind(head, nix::EVALUATED@, "packageVersion = pkg.version or null;"@);
    lemma_occurs_behind(head, nix::EVALUATED@, "derivation = toString pkg.drvPath;"@);
    lemma_occurs_behind(head, nix::EVALUATED@, "output = toString pkg.outPath;"@);
    lemma_occurs_behind(
        head,
        nix::EVALUATED@,
        "source = if src == null then null else toString src;"@,
    );
    lemma_occurs_behind(
        head,
        nix::EVALUATED@,
        "sourceRevision = if srcIsAttrs && src ? rev then src.rev else null;"@,
    );
    lemma_occurs_behind(
        head,
        nix::EVALUATED@,
        "if srcIsAttrs && src ? outputHash then src.outputHash"@,
    );
    lemma_occurs_behind(head, nix::EVALUATED@, "src = pkg.src or null;"@);
}

/// Materializing a source unpacks and patches it, and keeps all of it.
pub proof fn materialized_sources_are_patched(installable: InstallableView)
    ensures
        text::occurs(
            nix::materialization(installable),
            "phases = [ \"unpackPhase\" \"patchPhase\" \"installPhase\" ];"@,
        ),
        text::occurs(nix::materialization(installable), "outputs = [ \"out\" ];"@),
        text::occurs(nix::materialization(installable), "cp -a . \\\"$out/\\\""@),
        text::occurs(nix::materialization(installable), "dontFixup = true;"@),
{
    lemma_materialized_holds();
    let head = nix::LET_FLAKE@ + nix::literal(installable.flake_ref) + nix::CURRENT_PACKAGES@
        + nix::literal_list(installable.attr_path) + nix::OR_THROW@ + nix::missing_attribute(
        installable.attribute,
    );
    lemma_occurs_behind(
        head,
        nix::MATERIALIZED@,
        "phases = [ \"unpackPhase\" \"patchPhase\" \"installPhase\" ];"@,
    );
    lemma_occurs_behind(head, nix::MATERIALIZED@, "outputs = [ \"out\" ];"@);
    lemma_occurs_behind(head, nix::MATERIALIZED@, "cp -a . \\\"$out/\\\""@);
    lemma_occurs_behind(head, nix::MATERIALIZED@, "dontFixup = true;"@);
}

/// A fork is built from its source as it is, which was patched when the fork was made: nothing
/// is patched again, and the source is copied and made writable first.
pub proof fn forks_are_not_patched_again(m: MetadataView, source: Text)
    ensures
        text::occurs(nix::fork_expression(m, source), "prePatch = \"\";"@),
        text::occurs(nix::fork_expression(m, source), "postPatch = \"\";"@),
        text::occurs(
            nix::fork_expression(m, source),
            "patchPhase = \"runHook prePatch\\nrunHook postPatch\\n\";"@,
        ),
        text::occurs(nix::fork_expression(m, source), "cp -a --reflink=auto \\\"$src\\\" source"@),
        text::occurs(nix::fork_expression(m, source), "sourceRoot=source"@),
        text::occurs(nix::fork_expression(m, source), "chmod -R u+w source"@),
{
    lemma_build_body_holds();
    let head = nix::LET_FLAKE@ + nix::literal(m.package.flake_ref) + nix::SYSTEM_PACKAGES@
        + nix::literal(m.package.system) + nix::SYSTEM_PACKAGE@ + nix::literal_list(
        nix::attribute_path(m.package.attribute),
    ) + nix::OR_THROW@ + nix::missing_attribute(m.package.attribute) + nix::LOCAL_SOURCE@
        + nix::local_source(m, source);
    lemma_occurs_behind(head, nix::BUILD_BODY@, "prePatch = \"\";"@);
    lemma_occurs_behind(head, nix::BUILD_BODY@, "postPatch = \"\";"@);
    lemma_occurs_behind(
        head,
        nix::BUILD_BODY@,
        "patchPhase = \"runHook prePatch\\nrunHook postPatch\\n\";"@,
    );
    lemma_occurs_behind(head, nix::BUILD_BODY@, "cp -a --reflink=auto \\\"$src\\\" source"@);
    lemma_occurs_behind(head, nix::BUILD_BODY@, "sourceRoot=source"@);
    lemma_occurs_behind(head, nix::BUILD_BODY@, "chmod -R u+w source"@);
}

/// The overlay puts the fork in the place of the package at its path, and builds it as the
/// fork is built.
pub proof fn overlays_replace_the_package(m: MetadataView, source: Text)
    ensures
        text::occurs(nix::overlay_expression(m, source), "update = old: fork;"@),
        text::occurs(nix::overlay_expression(m, source), "inherit path;"@),
        text::occurs(
            nix::overlay_expression(m, source),
            "builtins.intersectAttrs { ${builtins.head path} = null; }"@,
        ),
        text::occurs(nix::overlay_expression(m, source), "prePatch = \"\";"@),
        text::occurs(nix::overlay_expression(m, source), "postPatch = \"\";"@),
        text::occurs(
            nix::overlay_expression(m, source),
            "patchPhase = \"runHook prePatch\\nrunHook postPatch\\n\";"@,
        ),
        text::occurs(
            nix::overlay_expression(m, source),
            "cp -a --reflink=auto \\\"$src\\\" source"@,
        ),
        text::occurs(nix::overlay_expression(m, source), "sourceRoot=source"@),
        text::occurs(nix::overlay_expression(m, source), "chmod -R u+w source"@),
{
    lemma_overlay_body_holds();
    let head = nix::OVERLAY_PACKAGE@ + nix::literal_list(
        nix::attribute_path(m.package.attribute),
    ) + nix::OVERLAY_THROW@ + nix::missing_attribute(m.package.attribute) + nix::OVERLAY_SOURCE@
        + nix::local_source(m, source);
    lemma_occurs_behind(head, nix::OVERLAY_BODY@, "update = old: fork;"@);
    lemma_occurs_behind(head, nix::OVERLAY_BODY@, "inherit path;"@);
    lemma_occurs_behind(
        head,
        nix::OVERLAY_BODY@,
        "builtins.intersectAttrs { ${builtins.head path} = null; }"@,
    );
    lemma_occurs_behind(head, nix::OVERLAY_BODY@, "prePatch = \"\";"@);
    lemma_occurs_behind(head, nix::OVERLAY_BODY@, "postPatch = \"\";"@);
    lemma_occurs_behind(
        head,
        nix::OVERLAY_BODY@,
        "patchPhase = \"runHook prePatch\\nrunHook postPatch\\n\";"@,
    );
    lemma_occurs_behind(head, nix::OVERLAY_BODY@, "cp -a --reflink=auto \\\"$src\\\" source"@);
    lemma_occurs_behind(head, nix::OVERLAY_BODY@, "sourceRoot=source"@);
    lemma_occurs_behind(head, nix::OVERLAY_BODY@, "chmod -R u+w source"@);
}

// ---- Modules

/// The module of an active fork imports its overlay into nixpkgs, unless the path of the
/// overlay holds an interpolation.
pub proof fn enabled_modules_import_their_overlay(module: ModuleView)
    requires
        !text::occurs(module.overlay, seq!['$', '{']),
    ensures
        string_after(scripts::enabled_text(module), "(import (/. + "@) == Some(module.overlay),
        after(scripts::enabled_text(module), "nixpkgs.overlays = [ (import "@) is Some,
        text::occurs(scripts::enabled_text(module), "forkpkg: enabled"@),
{
    let head = "# forkpkg: enabled\n{ ... }:\n{\n  nixpkgs.overlays = [ (import "@;
    let code = head + "(/. + "@;
    let tail = ")"@ + ") ];\n}\n"@;
    reveal_strlit("# forkpkg: enabled\n{ ... }:\n{\n  nixpkgs.overlays = [ (import ");
    reveal_strlit("(/. + ");
    reveal_strlit("(import (/. + ");
    reveal_strlit("nixpkgs.overlays = [ (import ");
    reveal_strlit("forkpkg: enabled");
    let parts = seq![Part::Code(code), Part::Str(module.overlay), Part::Code(tail)];
    scripts::lemma_plain_is_escaped(module.overlay);
    let whole = scripts::enabled_text(module);
    assert(whole == written(parts, 0)) by {
        reveal_with_fuel(written, 4);
        assert(whole =~= code + (nix::literal(module.overlay) + (tail + Seq::<char>::empty())));
    }
    reveal_with_fuel(stands, 32);
    reveal_with_fuel(lacks_before, 60);
    assert(stands(code, "(import (/. + "@, 53, 0));
    assert(lacks_before(code, "(import (/. + "@, 0, 53));
    lemma_string_found(parts, 0, 53, "(import (/. + "@);
    assert(stands(code, "nixpkgs.overlays = [ (import "@, 32, 0));
    assert(lacks_before(code, "nixpkgs.overlays = [ (import "@, 0, 32));
    lemma_found(parts, 0, 0, 32, "nixpkgs.overlays = [ (import "@);
    assert(stands(whole, "forkpkg: enabled"@, 2, 0));
    lemma_split(whole, "forkpkg: enabled"@, 2);
    assert(whole.subrange(2, 18) =~= "forkpkg: enabled"@);
    assert(text::occurs_at(whole, "forkpkg: enabled"@, 2));
}

proof fn lemma_backend_lacks(backend: Text)
    requires
        backend == "nixos-module"@ || backend == "home-manager-module"@,
    ensures
        code_lacks(backend, "overlays"@, 0),
        literals::free_from(backend, 'f', 0),
{
    reveal_strlit("overlays");
    reveal_strlit("nixos-module");
    reveal_strlit("home-manager-module");
    reveal_with_fuel(code_lacks, 21);
    reveal_with_fuel(literals::free_from, 21);
}

/// The module of a fork that is no longer active has no overlay, and is not taken for one
/// that is active.
pub proof fn disabled_modules_change_nothing(module: ModuleView)
    requires
        module.backend == "nixos-module"@ || module.backend == "home-manager-module"@,
    ensures
        after(scripts::disabled_text(module), "overlays"@) is None,
        !text::occurs(scripts::disabled_text(module), "forkpkg: enabled"@),
{
    let head = "# forkpkg: disabled\n{ ... }:\n{\n}\n# Previous backend: "@;
    reveal_strlit("# forkpkg: disabled\n{ ... }:\n{\n}\n# Previous backend: ");
    reveal_strlit("overlays");
    reveal_strlit("\n");
    reveal_strlit("forkpkg: enabled");
    let whole = scripts::disabled_text(module);
    let none = Seq::<char>::empty();
    reveal_with_fuel(code_lacks, 60);
    assert(code_lacks(head, "overlays"@, 0));
    assert(code_lacks("\n"@, "overlays"@, 0));
    lemma_backend_lacks(module.backend);
    assert(head.skip(0) =~= head);
    assert(module.backend.skip(0) =~= module.backend);
    assert("\n"@.skip(0) =~= "\n"@);
    lemma_code_passed(head, 0, module.backend + ("\n"@ + none), "overlays"@);
    lemma_code_passed(module.backend, 0, "\n"@ + none, "overlays"@);
    lemma_code_passed("\n"@, 0, none, "overlays"@);
    assert(whole =~= head + (module.backend + ("\n"@ + none)));
    if text::occurs(whole, "forkpkg: enabled"@) {
        let i = choose|i: int| #[trigger] text::occurs_at(whole, "forkpkg: enabled"@, i);
        let found = whole.subrange(i, i + "forkpkg: enabled"@.len());
        assert(found[0] == 'f' && found[9] == 'e');
        assert(whole[i] == 'f' && whole[i + 9] == 'e');
        let rest = head.skip(3);
        assert(literals::free_from(rest, 'f', 0)) by {
            reveal_with_fuel(literals::free_from, 54);
        }
        literals::lemma_free(rest, 'f');
        literals::lemma_free(module.backend, 'f');
        if i >= 3 && i < head.len() {
            assert(rest[i - 3] == 'f');
        } else if i >= head.len() && i < head.len() + module.backend.len() {
            assert(module.backend[i - head.len()] == 'f');
        }
        assert(i == 2);
        assert(whole[11] == head[11]);
    }
}

// ---- What nix told

proof fn lemma_first_line(lines: Seq<Text>)
    ensures
        match nix::first_line(lines) {
            Some(line) => is_first_line(line, lines),
            None => forall|i: int|
                0 <= i < lines.len() ==> text::stripped(#[trigger] lines[i]).len() == 0,
        },
    decreases lines.len(),
{
    if lines.len() > 0 {
        if text::stripped(lines[0]).len() > 0 {
            assert(nix::first_line(lines) == Some(text::stripped(lines[0])));
        } else {
            let rest = lines.drop_first();
            lemma_first_line(rest);
            match nix::first_line(rest) {
                Some(line) => {
                    let i = choose|i: int|
                        0 <= i < rest.len() && line == text::stripped(#[trigger] rest[i])
                            && forall|j: int|
                            0 <= j < i ==> text::stripped(#[trigger] rest[j]).len() == 0;
                    assert(lines[i + 1] == rest[i]);
                    assert forall|j: int| 0 <= j < i + 1 implies text::stripped(
                        #[trigger] lines[j],
                    ).len() == 0 by {
                        if j > 0 {
                            assert(rest[j - 1] == lines[j]);
                        }
                    }
                },
                None => {
                    assert forall|i: int| 0 <= i < lines.len() implies text::stripped(
                        #[trigger] lines[i],
                    ).len() == 0 by {
                        if i > 0 {
                            assert(rest[i - 1] == lines[i]);
                        }
                    }
                },
            }
        }
    }
}

/// Whether a text is the first of the lines that is not blank, without the white space around
/// it.
pub open spec fn is_first_line(line: Text, lines: Seq<Text>) -> bool {
    line.len() > 0 && exists|i: int|
        0 <= i < lines.len() && line == text::stripped(#[trigger] lines[i]) && forall|j: int|
            0 <= j < i ==> text::stripped(#[trigger] lines[j]).len() == 0
}

/// The output of a build is the first line that nix printed, without the white space around
/// it, blank lines aside; a build that failed has none, nor one that printed nothing.
pub proof fn outputs_are_what_nix_printed(read: CommandView)
    ensures
        nix::built_path(read) matches Ok(path) ==> (read matches CommandView::Printed { stdout }
            && is_first_line(path, text::pieces(stdout, '\n'))),
        read is Exited || read is NotExecuted ==> nix::built_path(read) is Err,
{
    if let CommandView::Printed { stdout } = read {
        lemma_first_line(text::pieces(stdout, '\n'));
    }
}

/// What a flake is locked to counts before what it says otherwise.
pub proof fn locked_flakes_are_remembered(fields: nix::FlakeFieldsView)
    ensures
        fields.locked_rev is Some ==> nix::identity_of(fields).revision == fields.locked_rev,
        fields.locked_rev is None ==> nix::identity_of(fields).revision == fields.rev,
        fields.locked_last_modified is Some ==> nix::identity_of(fields).last_modified
            == fields.locked_last_modified,
        fields.locked_last_modified is None ==> nix::identity_of(fields).last_modified
            == fields.last_modified,
        nix::identity_of(fields).locked_nar_hash == fields.locked_nar_hash,
        fields.resolved_url is Some ==> nix::identity_of(fields).resolved_url
            == fields.resolved_url,
        fields.resolved_url is None ==> nix::identity_of(fields).resolved_url == fields.url,
        nix::identity_of(fields).path == fields.path,
{
}

/// A document about a flake is read where nix keeps each field: what is locked below `locked`.
pub proof fn flakes_are_read_where_nix_keeps_them(document: Seq<u8>)
    ensures
        nix::flake_in(document) matches Ok(flake) ==> {
            &&& nix::json_problem(document) is None
            &&& nix::json_text(document, "/locked/rev"@) is Some ==> flake.revision
                == nix::json_text(document, "/locked/rev"@)
            &&& nix::json_text(document, "/locked/rev"@) is None ==> flake.revision
                == nix::json_text(document, "/rev"@)
            &&& nix::json_count(document, "/locked/lastModified"@) is Some ==> flake.last_modified
                == nix::json_count(document, "/locked/lastModified"@)
            &&& nix::json_count(document, "/locked/lastModified"@) is None ==> flake.last_modified
                == nix::json_count(document, "/lastModified"@)
            &&& flake.locked_nar_hash == nix::json_text(document, "/locked/narHash"@)
            &&& nix::json_text(document, "/resolvedUrl"@) is Some ==> flake.resolved_url
                == nix::json_text(document, "/resolvedUrl"@)
            &&& nix::json_text(document, "/resolvedUrl"@) is None ==> flake.resolved_url
                == nix::json_text(document, "/url"@)
            &&& flake.path == nix::json_text(document, "/path"@)
        },
        nix::json_problem(document) is None ==> nix::flake_in(document) is Ok,
{
}

/// The commands that ask about a flake and a store path name it.
pub proof fn questions_name_what_they_ask_about(flake_ref: Text, path: Text)
    ensures
        nix::flake_metadata_arguments(flake_ref).last() == flake_ref,
        nix::flake_metadata_arguments(flake_ref).contains("metadata"@),
        nix::flake_metadata_arguments(flake_ref).contains("--json"@),
        nix::path_info_arguments(path).last() == path,
        nix::path_info_arguments(path).contains("path-info"@),
        nix::path_info_arguments(path).contains("--json"@),
{
    let flake = nix::flake_metadata_arguments(flake_ref);
    assert(flake[3] == "metadata"@ && flake[4] == "--json"@);
    let info = nix::path_info_arguments(path);
    assert(info[2] == "path-info"@ && info[3] == "--json"@);
}

} // verus!
