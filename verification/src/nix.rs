//! Nix: installables, the expressions that are built, and what nix answers.
use vstd::prelude::*;

use crate::activation::profiles::{self, nix_arguments};
use crate::command::{self, in_context, output_of, CommandRead, CommandView};
use crate::metadata::{Metadata, MetadataView};
use crate::text::{
    self, cat2, cat3, chars_of, contains, drop_empty, fail, join, push_line, split, split_once,
    strip, Error, Text,
};

verus! {

// ---- Strings of the Nix language

/// What stands for one character in a string literal; `opens` tells whether an
/// opening brace follows, which after `$` would begin an interpolation.
pub open spec fn escaped_char(c: char, opens: bool) -> Text {
    if c == '\\' {
        seq!['\\', '\\']
    } else if c == '"' {
        seq!['\\', '"']
    } else if c == '\n' {
        seq!['\\', 'n']
    } else if c == '\r' {
        seq!['\\', 'r']
    } else if c == '\t' {
        seq!['\\', 't']
    } else if c == '$' && opens {
        seq!['\\', '$']
    } else {
        seq![c]
    }
}

/// A text as it stands between the quotes of a string literal.
pub open spec fn escaped(s: Text) -> Text
    decreases s.len(),
{
    if s.len() == 0 {
        Seq::empty()
    } else {
        escaped_char(s[0], s.len() > 1 && s[1] == '{') + escaped(s.drop_first())
    }
}

/// The string literal for a text.
pub open spec fn literal(s: Text) -> Text {
    seq!['"'] + escaped(s) + seq!['"']
}

/// Appends what stands for one character in a string literal.
pub(crate) fn push_escaped(out: &mut String, c: char, opens: bool)
    ensures
        final(out)@ == old(out)@ + escaped_char(c, opens),
{
    let ghost before = out@;
    if c == '\\' {
        out.push('\\');
        out.push('\\');
    } else if c == '"' {
        out.push('\\');
        out.push('"');
    } else if c == '\n' {
        out.push('\\');
        out.push('n');
    } else if c == '\r' {
        out.push('\\');
        out.push('r');
    } else if c == '\t' {
        out.push('\\');
        out.push('t');
    } else if c == '$' && opens {
        out.push('\\');
        out.push('$');
    } else {
        out.push(c);
    }
    assert(out@ =~= before + escaped_char(c, opens));
}

/// The Nix string literal for a text.
pub fn nix_string(value: &str) -> (r: String)
    ensures
        r@ == literal(value@),
{
    let chars = chars_of(value);
    let mut out = String::new();
    out.push('"');
    let mut i: usize = 0;
    assert(value@.skip(0) =~= value@);
    assert(out@ =~= seq!['"']);
    while i < chars.len()
        invariant
            i <= chars@.len(),
            chars@ == value@,
            out@ + escaped(value@.skip(i as int)) == seq!['"'] + escaped(value@),
        decreases chars@.len() - i,
    {
        let ghost rest = value@.skip(i as int);
        let ghost before = out@;
        let opens = i < chars.len() - 1 && chars[i + 1] == '{';
        proof {
            assert(rest[0] == chars@[i as int]);
            if rest.len() > 1 {
                assert(rest[1] == chars@[i + 1]);
            }
            assert(rest.drop_first() =~= value@.skip(i + 1));
        }
        push_escaped(&mut out, chars[i], opens);
        assert(out@ + escaped(value@.skip(i + 1)) =~= before + escaped(rest));
        i += 1;
    }
    assert(value@.skip(chars@.len() as int) =~= Seq::empty());
    assert(out@ + Seq::empty() =~= out@);
    out.push('"');
    assert(out@ =~= literal(value@));
    out
}

/// What the Nix language reads between the quotes of a string literal: `None` where
/// the literal would end early, or hold an interpolation.
pub open spec fn read_back(s: Text) -> Option<Text>
    decreases s.len(),
{
    if s.len() == 0 {
        Some(Seq::empty())
    } else if s[0] == '"' || (s[0] == '$' && s.len() > 1 && s[1] == '{') {
        None
    } else if s[0] == '\\' {
        if s.len() == 1 {
            None
        } else {
            let c = if s[1] == 'n' {
                '\n'
            } else if s[1] == 'r' {
                '\r'
            } else if s[1] == 't' {
                '\t'
            } else {
                s[1]
            };
            match read_back(s.skip(2)) {
                Some(rest) => Some(seq![c] + rest),
                None => None,
            }
        }
    } else {
        match read_back(s.drop_first()) {
            Some(rest) => Some(seq![s[0]] + rest),
            None => None,
        }
    }
}

proof fn lemma_escaped_head(s: Text)
    ensures
        s.len() == 0 ==> escaped(s).len() == 0,
        s.len() > 0 ==> escaped(s).len() > 0 && (escaped(s)[0] == s[0] || escaped(s)[0] == '\\'),
{
}

/// The literal for a text reads back as that text, whatever quotes, line breaks or
/// interpolations the text holds.
pub proof fn literals_read_back(s: Text)
    ensures
        read_back(escaped(s)) == Some(s),
    decreases s.len(),
{
    if s.len() > 0 {
        let opens = s.len() > 1 && s[1] == '{';
        let first = escaped_char(s[0], opens);
        let rest = escaped(s.drop_first());
        literals_read_back(s.drop_first());
        lemma_escaped_head(s.drop_first());
        let whole = escaped(s);
        assert(whole =~= first + rest);
        assert(seq![s[0]] + s.drop_first() =~= s);
        if first.len() == 2 {
            assert(whole.skip(2) =~= rest);
        } else {
            assert(whole.drop_first() =~= rest);
            if whole.len() > 1 {
                assert(whole[1] == rest[0]);
            }
            if s[0] == '$' && s.len() > 1 {
                assert(s.drop_first()[0] == s[1]);
            }
        }
    }
}

/// How many backslashes stand right before a position.
pub open spec fn backslashes_before(s: Text, i: int) -> nat
    decreases i,
{
    if 0 < i && s[i - 1] == '\\' {
        1 + backslashes_before(s, i - 1)
    } else {
        0
    }
}

/// Whether what stands at a position is escaped.
pub open spec fn is_escaped_at(s: Text, i: int) -> bool {
    backslashes_before(s, i) % 2 == 1
}

/// What stands for a character before a text escapes nothing in that text.
pub(crate) proof fn lemma_escapes_stay(first: Text, rest: Text, i: int)
    requires
        first == seq!['\\', '\\'] || (first.len() > 0 && first.last() != '\\'),
        0 <= i <= rest.len(),
    ensures
        is_escaped_at(first + rest, first.len() + i) == is_escaped_at(rest, i),
    decreases i,
{
    let whole = first + rest;
    let at = first.len() + i;
    if i > 0 {
        assert(whole[at - 1] == rest[i - 1]);
        lemma_escapes_stay(first, rest, i - 1);
    } else if first == seq!['\\', '\\'] {
        assert(whole[1] == '\\' && whole[0] == '\\');
        assert(backslashes_before(whole, 0) == 0);
        assert(backslashes_before(whole, 1) == 1);
        assert(backslashes_before(whole, 2) == 2);
    } else {
        assert(whole[at - 1] == first.last());
    }
}

/// Between the quotes of a literal no line break or tab stands as it is, every quote and
/// every beginning of an interpolation is escaped, and the closing quote is not.
pub proof fn literals_end_at_their_last_quote(s: Text)
    ensures
        literal(s) == seq!['"'] + escaped(s) + seq!['"'],
        forall|i: int|
            0 <= i < escaped(s).len() ==> {
                &&& (#[trigger] escaped(s)[i]) != '\n'
                &&& escaped(s)[i] != '\r'
                &&& escaped(s)[i] != '\t'
                &&& escaped(s)[i] == '"' ==> is_escaped_at(escaped(s), i)
                &&& escaped(s)[i] == '$' && i + 1 < escaped(s).len() && escaped(s)[i + 1] == '{'
                    ==> is_escaped_at(escaped(s), i)
            },
        !is_escaped_at(escaped(s), escaped(s).len() as int),
    decreases s.len(),
{
    if s.len() > 0 {
        let opens = s.len() > 1 && s[1] == '{';
        let first = escaped_char(s[0], opens);
        let tail = s.drop_first();
        let rest = escaped(tail);
        let whole = escaped(s);
        literals_end_at_their_last_quote(tail);
        lemma_escaped_head(tail);
        assert(whole == first + rest);
        assert forall|i: int| 0 <= i < whole.len() implies {
            &&& (#[trigger] whole[i]) != '\n'
            &&& whole[i] != '\r'
            &&& whole[i] != '\t'
            &&& whole[i] == '"' ==> is_escaped_at(whole, i)
            &&& whole[i] == '$' && i + 1 < whole.len() && whole[i + 1] == '{' ==> is_escaped_at(
                whole,
                i,
            )
        } by {
            if i >= first.len() {
                assert(whole[i] == rest[i - first.len()]);
                if i + 1 < whole.len() {
                    assert(whole[i + 1] == rest[i + 1 - first.len()]);
                }
                lemma_escapes_stay(first, rest, i - first.len());
            } else if i == 1 {
                assert(whole[0] == '\\');
                assert(backslashes_before(whole, 0) == 0);
                assert(backslashes_before(whole, 1) == 1);
            } else if first.len() == 1 && whole.len() > 1 {
                assert(whole[1] == rest[0]);
                if s.len() > 1 {
                    assert(tail[0] == s[1]);
                }
            }
        }
        lemma_escapes_stay(first, rest, rest.len() as int);
    }
}

/// Different texts have different literals.
pub proof fn literals_tell_texts_apart(a: Text, b: Text)
    ensures
        (literal(a) == literal(b)) == (a == b),
{
    if literal(a) == literal(b) {
        assert(literal(a).subrange(1, literal(a).len() - 1) =~= escaped(a));
        assert(literal(b).subrange(1, literal(b).len() - 1) =~= escaped(b));
        literals_read_back(a);
        literals_read_back(b);
    }
}

pub open spec fn literals(values: Seq<Text>) -> Seq<Text> {
    values.map_values(|value: Text| literal(value))
}

/// The Nix list of string literals.
pub open spec fn literal_list(values: Seq<Text>) -> Text {
    "[ "@ + text::joined(literals(values), " "@) + " ]"@
}

pub fn nix_string_list(values: &Vec<String>) -> (r: String)
    ensures
        r@ == literal_list(values.deep_view()),
{
    let ghost all = values.deep_view();
    let mut parts: Vec<String> = Vec::new();
    let mut i: usize = 0;
    while i < values.len()
        invariant
            i <= values@.len(),
            all == values.deep_view(),
            all.len() == values@.len(),
            parts.deep_view() == literals(all).take(i as int),
        decreases values@.len() - i,
    {
        assert(literals(all)[i as int] == literal(values@[i as int]@));
        push_line(&mut parts, nix_string(values[i].as_str()));
        assert(literals(all).take(i + 1) =~= literals(all).take(i as int).push(
            literals(all)[i as int],
        ));
        i += 1;
    }
    assert(literals(all).take(all.len() as int) =~= literals(all));
    cat3("[ ", join(&parts, " ").as_str(), " ]")
}

/// The message of an expression whose package does not exist.
pub open spec fn missing_attribute(attribute: Text) -> Text {
    literal("package attribute not found: "@ + attribute)
}

pub fn attribute_message(attribute: &str) -> (r: String)
    ensures
        r@ == missing_attribute(attribute@),
{
    nix_string(cat2("package attribute not found: ", attribute).as_str())
}

// ---- Installables

#[derive(Debug, Clone)]
pub struct Installable {
    pub original: String,
    pub flake_ref: String,
    pub attribute: String,
    pub attr_path: Vec<String>,
}

pub struct InstallableView {
    pub original: Text,
    pub flake_ref: Text,
    pub attribute: Text,
    pub attr_path: Seq<Text>,
}

impl DeepView for Installable {
    type V = InstallableView;

    open spec fn deep_view(&self) -> InstallableView {
        InstallableView {
            original: self.original@,
            flake_ref: self.flake_ref@,
            attribute: self.attribute@,
            attr_path: self.attr_path.deep_view(),
        }
    }
}

/// The names that an attribute leads through.
pub open spec fn attribute_path(attribute: Text) -> Seq<Text> {
    text::nonempty(text::pieces(attribute, '.'))
}

/// What an installable means: a flake and the path of an attribute in it.
pub open spec fn installable_in(input: Text) -> Result<InstallableView, Text> {
    match text::halves(input, '#') {
        None => Err("expected a flake installable like nixpkgs#ripgrep"@),
        Some((flake_ref, attribute)) => if text::stripped(flake_ref).len() == 0
            || text::stripped(attribute).len() == 0 {
            Err("expected a flake installable like nixpkgs#ripgrep"@)
        } else if text::occurs(attribute, "^"@) {
            Err("output-selected installables are not supported yet: "@ + input)
        } else if attribute_path(attribute).len() == 0 {
            Err("package attribute is empty in installable: "@ + input)
        } else {
            Ok(
                InstallableView {
                    original: input,
                    flake_ref,
                    attribute,
                    attr_path: attribute_path(attribute),
                },
            )
        },
    }
}

/// Takes a flake installable apart.
pub fn parse_installable(input: &str) -> (r: Result<Installable, Error>)
    ensures
        text::outcome(r) == installable_in(input@),
{
    let (flake_ref, attribute) = match split_once(input, '#') {
        Some(halves) => halves,
        None => {
            return Err(fail("expected a flake installable like nixpkgs#ripgrep".to_owned()));
        },
    };
    if strip(flake_ref.as_str()).as_str().is_empty() || strip(
        attribute.as_str(),
    ).as_str().is_empty() {
        return Err(fail("expected a flake installable like nixpkgs#ripgrep".to_owned()));
    }
    if contains(attribute.as_str(), "^") {
        return Err(fail(cat2("output-selected installables are not supported yet: ", input)));
    }
    let attr_path = drop_empty(&split(attribute.as_str(), '.'));
    if attr_path.len() == 0 {
        return Err(fail(cat2("package attribute is empty in installable: ", input)));
    }
    Ok(Installable { original: input.to_owned(), flake_ref, attribute, attr_path })
}

// ---- What nix told of a package

/// What evaluating a package gave.
#[derive(Debug, Clone)]
pub struct PackageEval {
    pub system: String,
    pub package_name: Option<String>,
    pub package_pname: Option<String>,
    pub package_version: Option<String>,
    pub derivation: String,
    pub output: String,
    pub source: Option<String>,
    pub source_revision: Option<String>,
    pub source_hash: Option<String>,
}

#[derive(Debug, Clone)]
pub struct FlakeIdentity {
    pub revision: Option<String>,
    pub last_modified: Option<u64>,
    pub locked_nar_hash: Option<String>,
    pub resolved_url: Option<String>,
    pub path: Option<String>,
}

#[derive(Debug, Clone)]
pub struct StorePathInfo {
    pub nar_hash: Option<String>,
    pub ca: Option<String>,
}

#[derive(Debug, Clone)]
pub struct ResolvedPackage {
    pub installable: Installable,
    pub system: String,
    pub package_name: Option<String>,
    pub package_pname: Option<String>,
    pub package_version: Option<String>,
    pub derivation: String,
    pub output: String,
    pub source: Option<String>,
    pub source_revision: Option<String>,
    pub source_hash: Option<String>,
    pub flake: FlakeIdentity,
    pub source_store: Option<StorePathInfo>,
}

pub struct PackageEvalView {
    pub system: Text,
    pub package_name: Option<Text>,
    pub package_pname: Option<Text>,
    pub package_version: Option<Text>,
    pub derivation: Text,
    pub output: Text,
    pub source: Option<Text>,
    pub source_revision: Option<Text>,
    pub source_hash: Option<Text>,
}

pub struct FlakeView {
    pub revision: Option<Text>,
    pub last_modified: Option<u64>,
    pub locked_nar_hash: Option<Text>,
    pub resolved_url: Option<Text>,
    pub path: Option<Text>,
}

pub struct StorePathView {
    pub nar_hash: Option<Text>,
    pub ca: Option<Text>,
}

pub struct ResolvedView {
    pub installable: InstallableView,
    pub system: Text,
    pub package_name: Option<Text>,
    pub package_pname: Option<Text>,
    pub package_version: Option<Text>,
    pub derivation: Text,
    pub output: Text,
    pub source: Option<Text>,
    pub source_revision: Option<Text>,
    pub source_hash: Option<Text>,
    pub flake: FlakeView,
    pub source_store: Option<StorePathView>,
}

impl DeepView for PackageEval {
    type V = PackageEvalView;

    open spec fn deep_view(&self) -> PackageEvalView {
        PackageEvalView {
            system: self.system@,
            package_name: self.package_name.deep_view(),
            package_pname: self.package_pname.deep_view(),
            package_version: self.package_version.deep_view(),
            derivation: self.derivation@,
            output: self.output@,
            source: self.source.deep_view(),
            source_revision: self.source_revision.deep_view(),
            source_hash: self.source_hash.deep_view(),
        }
    }
}

impl DeepView for FlakeIdentity {
    type V = FlakeView;

    open spec fn deep_view(&self) -> FlakeView {
        FlakeView {
            revision: self.revision.deep_view(),
            last_modified: self.last_modified,
            locked_nar_hash: self.locked_nar_hash.deep_view(),
            resolved_url: self.resolved_url.deep_view(),
            path: self.path.deep_view(),
        }
    }
}

impl DeepView for StorePathInfo {
    type V = StorePathView;

    open spec fn deep_view(&self) -> StorePathView {
        StorePathView { nar_hash: self.nar_hash.deep_view(), ca: self.ca.deep_view() }
    }
}

impl DeepView for ResolvedPackage {
    type V = ResolvedView;

    open spec fn deep_view(&self) -> ResolvedView {
        ResolvedView {
            installable: self.installable.deep_view(),
            system: self.system@,
            package_name: self.package_name.deep_view(),
            package_pname: self.package_pname.deep_view(),
            package_version: self.package_version.deep_view(),
            derivation: self.derivation@,
            output: self.output@,
            source: self.source.deep_view(),
            source_revision: self.source_revision.deep_view(),
            source_hash: self.source_hash.deep_view(),
            flake: self.flake.deep_view(),
            source_store: self.source_store.deep_view(),
        }
    }
}

/// A package with everything that nix told of it.
pub open spec fn resolved(
    installable: InstallableView,
    eval: PackageEvalView,
    flake: FlakeView,
    source_store: Option<StorePathView>,
) -> ResolvedView {
    ResolvedView {
        installable,
        system: eval.system,
        package_name: eval.package_name,
        package_pname: eval.package_pname,
        package_version: eval.package_version,
        derivation: eval.derivation,
        output: eval.output,
        source: eval.source,
        source_revision: eval.source_revision,
        source_hash: eval.source_hash,
        flake,
        source_store,
    }
}

/// Puts together what nix told of an installable: the evaluation of its package, the
/// identity of its flake and, where the package has a source, the source's path info.
pub fn resolve_installable(
    input: &str,
    eval: PackageEval,
    flake: FlakeIdentity,
    source_store: Option<StorePathInfo>,
) -> (r: Result<ResolvedPackage, Error>)
    ensures
        text::outcome(r) == (match installable_in(input@) {
            Err(problem) => Err(problem),
            Ok(installable) => Ok(
                resolved(
                    installable,
                    eval.deep_view(),
                    flake.deep_view(),
                    source_store.deep_view(),
                ),
            ),
        }),
{
    let installable = match parse_installable(input) {
        Ok(installable) => installable,
        Err(error) => {
            return Err(error);
        },
    };
    Ok(
        ResolvedPackage {
            installable,
            system: eval.system,
            package_name: eval.package_name,
            package_pname: eval.package_pname,
            package_version: eval.package_version,
            derivation: eval.derivation,
            output: eval.output,
            source: eval.source,
            source_revision: eval.source_revision,
            source_hash: eval.source_hash,
            flake,
            source_store,
        },
    )
}

/// What is known of the first path in an answer to `nix path-info`, whose entries
/// are given in the order of their paths.
pub open spec fn first_info(entries: Seq<Option<StorePathView>>) -> Option<StorePathView> {
    if entries.len() == 0 {
        None
    } else {
        entries[0]
    }
}

pub fn path_info(entries: Vec<Option<StorePathInfo>>) -> (r: Option<StorePathInfo>)
    ensures
        r.deep_view() == first_info(entries.deep_view()),
{
    let ghost all = entries.deep_view();
    let mut entries = entries;
    if entries.len() == 0 {
        return None;
    }
    assert(all[0] == entries@[0].deep_view());
    entries.remove(0)
}

// ---- Flake metadata

/// Why a document is not JSON, if it is not: the message of the error with which
/// `serde_json::from_slice` refuses it as a `serde_json::Value`.
pub uninterp spec fn json_problem(document: Seq<u8>) -> Option<Seq<char>>;

/// The string at a JSON pointer in a document: what `serde_json::Value::pointer` and
/// `as_str` give on the parsed document.
pub uninterp spec fn json_text(document: Seq<u8>, pointer: Seq<char>) -> Option<Seq<char>>;

/// The unsigned number at a JSON pointer in a document: what
/// `serde_json::Value::pointer` and `as_u64` give on the parsed document.
pub uninterp spec fn json_count(document: Seq<u8>, pointer: Seq<char>) -> Option<u64>;

/// Parses a document with `serde_json::from_slice`; an error is given by its message.
/// That the outcome depends on the document alone is all that is claimed.
#[verifier::external_body]
fn check_json(document: &[u8]) -> (r: Option<String>)
    ensures
        r.deep_view() == json_problem(document@),
{
    match serde_json::from_slice::<serde_json::Value>(document) {
        Ok(_) => None,
        Err(error) => Some(error.to_string()),
    }
}

/// Looks a string up with `serde_json::Value::pointer` and `as_str`. That the result
/// depends on the document and the pointer alone is all that is claimed.
#[verifier::external_body]
fn json_text_at(document: &[u8], pointer: &str) -> (r: Option<String>)
    ensures
        r.deep_view() == json_text(document@, pointer@),
{
    match serde_json::from_slice::<serde_json::Value>(document) {
        Ok(value) => value.pointer(pointer)?.as_str().map(str::to_owned),
        Err(_) => None,
    }
}

/// Looks a number up with `serde_json::Value::pointer` and `as_u64`. That the result
/// depends on the document and the pointer alone is all that is claimed.
#[verifier::external_body]
fn json_count_at(document: &[u8], pointer: &str) -> (r: Option<u64>)
    ensures
        r == json_count(document@, pointer@),
{
    match serde_json::from_slice::<serde_json::Value>(document) {
        Ok(value) => value.pointer(pointer)?.as_u64(),
        Err(_) => None,
    }
}

/// The fields of flake metadata that say which flake it is.
#[derive(Debug, Clone)]
pub struct FlakeFields {
    pub locked_rev: Option<String>,
    pub rev: Option<String>,
    pub locked_last_modified: Option<u64>,
    pub last_modified: Option<u64>,
    pub locked_nar_hash: Option<String>,
    pub resolved_url: Option<String>,
    pub url: Option<String>,
    pub path: Option<String>,
}

pub struct FlakeFieldsView {
    pub locked_rev: Option<Text>,
    pub rev: Option<Text>,
    pub locked_last_modified: Option<u64>,
    pub last_modified: Option<u64>,
    pub locked_nar_hash: Option<Text>,
    pub resolved_url: Option<Text>,
    pub url: Option<Text>,
    pub path: Option<Text>,
}

impl DeepView for FlakeFields {
    type V = FlakeFieldsView;

    open spec fn deep_view(&self) -> FlakeFieldsView {
        FlakeFieldsView {
            locked_rev: self.locked_rev.deep_view(),
            rev: self.rev.deep_view(),
            locked_last_modified: self.locked_last_modified,
            last_modified: self.last_modified,
            locked_nar_hash: self.locked_nar_hash.deep_view(),
            resolved_url: self.resolved_url.deep_view(),
            url: self.url.deep_view(),
            path: self.path.deep_view(),
        }
    }
}

/// The first value where there is one, else the second.
pub open spec fn or_else<A>(first: Option<A>, second: Option<A>) -> Option<A> {
    match first {
        Some(value) => Some(value),
        None => second,
    }
}

/// Which flake the fields tell of; what is locked counts first.
pub open spec fn identity_of(fields: FlakeFieldsView) -> FlakeView {
    FlakeView {
        revision: or_else(fields.locked_rev, fields.rev),
        last_modified: or_else(fields.locked_last_modified, fields.last_modified),
        locked_nar_hash: fields.locked_nar_hash,
        resolved_url: or_else(fields.resolved_url, fields.url),
        path: fields.path,
    }
}

pub fn flake_identity(fields: FlakeFields) -> (r: FlakeIdentity)
    ensures
        r.deep_view() == identity_of(fields.deep_view()),
{
    FlakeIdentity {
        revision: match fields.locked_rev {
            Some(rev) => Some(rev),
            None => fields.rev,
        },
        last_modified: match fields.locked_last_modified {
            Some(time) => Some(time),
            None => fields.last_modified,
        },
        locked_nar_hash: fields.locked_nar_hash,
        resolved_url: match fields.resolved_url {
            Some(url) => Some(url),
            None => fields.url,
        },
        path: fields.path,
    }
}

/// The fields that a document holds.
pub open spec fn fields_in(document: Seq<u8>) -> FlakeFieldsView {
    FlakeFieldsView {
        locked_rev: json_text(document, "/locked/rev"@),
        rev: json_text(document, "/rev"@),
        locked_last_modified: json_count(document, "/locked/lastModified"@),
        last_modified: json_count(document, "/lastModified"@),
        locked_nar_hash: json_text(document, "/locked/narHash"@),
        resolved_url: json_text(document, "/resolvedUrl"@),
        url: json_text(document, "/url"@),
        path: json_text(document, "/path"@),
    }
}

/// Which flake a metadata document tells of.
pub open spec fn flake_in(document: Seq<u8>) -> Result<FlakeView, Text> {
    match json_problem(document) {
        Some(problem) => Err("failed to parse nix JSON output: "@ + problem),
        None => Ok(identity_of(fields_in(document))),
    }
}

/// Reads what `nix flake metadata --json` printed.
pub fn flake_metadata(document: &[u8]) -> (r: Result<FlakeIdentity, Error>)
    ensures
        text::outcome(r) == flake_in(document@),
{
    if let Some(problem) = check_json(document) {
        return Err(fail(cat2("failed to parse nix JSON output: ", problem.as_str())));
    }
    Ok(
        flake_identity(
            FlakeFields {
                locked_rev: json_text_at(document, "/locked/rev"),
                rev: json_text_at(document, "/rev"),
                locked_last_modified: json_count_at(document, "/locked/lastModified"),
                last_modified: json_count_at(document, "/lastModified"),
                locked_nar_hash: json_text_at(document, "/locked/narHash"),
                resolved_url: json_text_at(document, "/resolvedUrl"),
                url: json_text_at(document, "/url"),
                path: json_text_at(document, "/path"),
            },
        ),
    )
}

// ---- Expressions

pub const LET_FLAKE: &'static str = "
let
  flake = builtins.getFlake ";

pub const CURRENT_PACKAGES: &'static str = ";
  pkgs = flake.legacyPackages.${builtins.currentSystem};
  lib = pkgs.lib;
  pkg = lib.attrByPath ";

pub const OR_THROW: &'static str = " (throw ";

pub const EVALUATED: &'static str = ") pkgs;
  src = pkg.src or null;
  srcIsAttrs = builtins.isAttrs src;
in {
  system = builtins.currentSystem;
  packageName = pkg.name or null;
  packagePname = pkg.pname or null;
  packageVersion = pkg.version or null;
  derivation = toString pkg.drvPath;
  output = toString pkg.outPath;
  source = if src == null then null else toString src;
  sourceRevision = if srcIsAttrs && src ? rev then src.rev else null;
  sourceHash =
    if srcIsAttrs && src ? outputHash then src.outputHash
    else if srcIsAttrs && src ? hash then src.hash
    else null;
}
";

pub const MATERIALIZED: &'static str = ") pkgs;
in
  pkg.overrideAttrs (old: {
    name = ((old.pname or old.name) + \"-forkpkg-source\");
    outputs = [ \"out\" ];
    phases = [ \"unpackPhase\" \"patchPhase\" \"installPhase\" ];
    installPhase = \"runHook preInstall\\nmkdir -p \\\"$out\\\"\\nshopt -s dotglob nullglob\\ncp -a . \\\"$out/\\\"\\nrunHook postInstall\\n\";
    dontFixup = true;
    doCheck = false;
    doInstallCheck = false;
  })
";

pub const SYSTEM_PACKAGES: &'static str = ";
  pkgs = flake.legacyPackages.${";

pub const SYSTEM_PACKAGE: &'static str = "};
  lib = pkgs.lib;
  pkg = lib.attrByPath ";

pub const LOCAL_SOURCE: &'static str = ") pkgs;
  localSource = builtins.path {
    path = ";

pub const LOCAL_NAME: &'static str = ";
    name = ";

pub const LOCAL_FILTER: &'static str = ";
    filter = path: type: baseNameOf path != \".git\";
  };
";

pub const BUILD_BODY: &'static str = "in
  pkg.overrideAttrs (old: {
    src = localSource;
    patches = [];
    prePatch = \"\";
    postPatch = \"\";
    patchPhase = \"runHook prePatch\\nrunHook postPatch\\n\";
    unpackPhase = \"runHook preUnpack\\ncp -a --reflink=auto \\\"$src\\\" source\\nchmod -R u+w source\\nsourceRoot=source\\nrunHook postUnpack\\n\";
  })
";

pub const OVERLAY_PACKAGE: &'static str = "final: prev:
let
  lib = prev.lib;
  path = ";

pub const OVERLAY_THROW: &'static str = ";
  pkg = lib.attrByPath path (throw ";

pub const OVERLAY_SOURCE: &'static str = ") prev;
  localSource = builtins.path {
    path = ";

pub const OVERLAY_BODY: &'static str = "  fork = pkg.overrideAttrs (old: {
    src = localSource;
    patches = [];
    prePatch = \"\";
    postPatch = \"\";
    patchPhase = \"runHook prePatch\\nrunHook postPatch\\n\";
    unpackPhase = \"runHook preUnpack\\ncp -a --reflink=auto \\\"$src\\\" source\\nchmod -R u+w source\\nsourceRoot=source\\nrunHook postUnpack\\n\";
  });
in
  builtins.intersectAttrs { ${builtins.head path} = null; }
    (lib.updateManyAttrsByPath [ { inherit path; update = old: fork; } ] prev)
";

/// An expression that finds an installable's package on the current system and goes
/// on with `tail`.
pub open spec fn package_expression(installable: InstallableView, tail: Text) -> Text {
    LET_FLAKE@ + literal(installable.flake_ref) + CURRENT_PACKAGES@ + literal_list(
        installable.attr_path,
    ) + OR_THROW@ + missing_attribute(installable.attribute) + tail
}

fn package_expr(installable: &Installable, tail: &str) -> (r: String)
    ensures
        r@ == package_expression(installable.deep_view(), tail@),
{
    let mut r = LET_FLAKE.to_owned();
    r.append(nix_string(installable.flake_ref.as_str()).as_str());
    r.append(CURRENT_PACKAGES);
    r.append(nix_string_list(&installable.attr_path).as_str());
    r.append(OR_THROW);
    r.append(attribute_message(installable.attribute.as_str()).as_str());
    r.append(tail);
    r
}

/// The expression that tells what nix knows of a package.
pub open spec fn evaluation(installable: InstallableView) -> Text {
    package_expression(installable, EVALUATED@)
}

/// The expression that builds a package's source after all patches.
pub open spec fn materialization(installable: InstallableView) -> Text {
    package_expression(installable, MATERIALIZED@)
}

pub open spec fn evaluation_arguments(installable: InstallableView) -> Seq<Text> {
    profiles::nix_prefix() + seq![
        "eval"@,
        "--json"@,
        "--impure"@,
        "--expr"@,
        evaluation(installable),
    ]
}

/// The arguments of the nix command that evaluates a package.
pub fn package_eval(installable: &Installable) -> (r: Vec<String>)
    ensures
        r.deep_view() == evaluation_arguments(installable.deep_view()),
{
    let mut r = nix_arguments();
    push_line(&mut r, "eval".to_owned());
    push_line(&mut r, "--json".to_owned());
    push_line(&mut r, "--impure".to_owned());
    push_line(&mut r, "--expr".to_owned());
    push_line(&mut r, package_expr(installable, EVALUATED));
    assert(r.deep_view() =~= evaluation_arguments(installable.deep_view()));
    r
}

pub open spec fn flake_metadata_arguments(flake_ref: Text) -> Seq<Text> {
    profiles::nix_prefix() + seq!["flake"@, "metadata"@, "--json"@, flake_ref]
}

/// The arguments of the nix command that prints a flake's metadata.
pub fn flake_metadata_command(flake_ref: &str) -> (r: Vec<String>)
    ensures
        r.deep_view() == flake_metadata_arguments(flake_ref@),
{
    let mut r = nix_arguments();
    push_line(&mut r, "flake".to_owned());
    push_line(&mut r, "metadata".to_owned());
    push_line(&mut r, "--json".to_owned());
    push_line(&mut r, flake_ref.to_owned());
    assert(r.deep_view() =~= flake_metadata_arguments(flake_ref@));
    r
}

pub open spec fn path_info_arguments(path: Text) -> Seq<Text> {
    profiles::nix_prefix() + seq!["path-info"@, "--json"@, path]
}

/// The arguments of the nix command that tells of a store path.
pub fn path_info_command(path: &str) -> (r: Vec<String>)
    ensures
        r.deep_view() == path_info_arguments(path@),
{
    let mut r = nix_arguments();
    push_line(&mut r, "path-info".to_owned());
    push_line(&mut r, "--json".to_owned());
    push_line(&mut r, path.to_owned());
    assert(r.deep_view() =~= path_info_arguments(path@));
    r
}

pub open spec fn build_arguments(expression: Text) -> Seq<Text> {
    profiles::nix_prefix() + seq![
        "build"@,
        "--impure"@,
        "--no-link"@,
        "--print-out-paths"@,
        "--expr"@,
        expression,
    ]
}

fn nix_build_expr(expression: String) -> (r: Vec<String>)
    ensures
        r.deep_view() == build_arguments(expression@),
{
    let mut r = nix_arguments();
    push_line(&mut r, "build".to_owned());
    push_line(&mut r, "--impure".to_owned());
    push_line(&mut r, "--no-link".to_owned());
    push_line(&mut r, "--print-out-paths".to_owned());
    push_line(&mut r, "--expr".to_owned());
    push_line(&mut r, expression);
    assert(r.deep_view() =~= build_arguments(expression@));
    r
}

/// The arguments of the nix command that builds a package's post-patch source.
pub fn materialize_post_patch_source(installable: &Installable) -> (r: Vec<String>)
    ensures
        r.deep_view() == build_arguments(materialization(installable.deep_view())),
{
    nix_build_expr(package_expr(installable, MATERIALIZED))
}

// ---- Building a fork

/// The answer to resolving the path of a fork's source.
#[derive(Debug, Clone)]
pub enum PathRead {
    Resolved { path: String },
    NotResolved { cause: String },
    /// The resolved path, as it can be shown, is not valid Unicode.
    NotText { shown: String },
}

pub enum PathReadView {
    Resolved { path: Text },
    NotResolved { cause: Text },
    NotText { shown: Text },
}

impl DeepView for PathRead {
    type V = PathReadView;

    open spec fn deep_view(&self) -> PathReadView {
        match self {
            PathRead::Resolved { path } => PathReadView::Resolved { path: path@ },
            PathRead::NotResolved { cause } => PathReadView::NotResolved { cause: cause@ },
            PathRead::NotText { shown } => PathReadView::NotText { shown: shown@ },
        }
    }
}

/// The resolved source of a fork whose package can be found, or why there is none.
pub open spec fn source_of(m: MetadataView, source_path: Text, read: PathReadView) -> Result<
    Text,
    Text,
> {
    if attribute_path(m.package.attribute).len() == 0 {
        Err("metadata package attribute is empty"@)
    } else {
        match read {
            PathReadView::Resolved { path } => Ok(path),
            PathReadView::NotResolved { cause } => Err(
                "failed to resolve "@ + source_path + ": "@ + cause,
            ),
            PathReadView::NotText { shown } => Err("source path is not valid UTF-8: "@ + shown),
        }
    }
}

fn resolved_source(metadata: &Metadata, source_path: &str, read: &PathRead) -> (r: Result<
    (Vec<String>, String),
    Error,
>)
    ensures
        match r {
            Ok((attr_path, source)) => {
                &&& attr_path.deep_view() == attribute_path(metadata.deep_view().package.attribute)
                &&& source_of(metadata.deep_view(), source_path@, read.deep_view()) == Ok::<
                    Text,
                    Text,
                >(source@)
            },
            Err(error) => source_of(metadata.deep_view(), source_path@, read.deep_view()) == Err::<
                Text,
                Text,
            >(error@),
        },
{
    let attr_path = drop_empty(&split(metadata.package.attribute.as_str(), '.'));
    if attr_path.len() == 0 {
        return Err(fail("metadata package attribute is empty".to_owned()));
    }
    match read {
        PathRead::Resolved { path } => Ok((attr_path, path.clone())),
        PathRead::NotResolved { cause } => Err(
            fail(cat3(cat2("failed to resolve ", source_path).as_str(), ": ", cause.as_str())),
        ),
        PathRead::NotText { shown } => Err(
            fail(cat2("source path is not valid UTF-8: ", shown.as_str())),
        ),
    }
}

/// The name that a fork's source gets in the store.
pub open spec fn local_name_of(m: MetadataView) -> Text {
    "forkpkg-local-source-"@ + match m.package.pname {
        Some(pname) => pname,
        None => match m.package.name {
            Some(name) => name,
            None => "package"@,
        },
    }
}

fn local_name(metadata: &Metadata) -> (r: String)
    ensures
        r@ == local_name_of(metadata.deep_view()),
{
    match &metadata.package.pname {
        Some(pname) => cat2("forkpkg-local-source-", pname.as_str()),
        None => match &metadata.package.name {
            Some(name) => cat2("forkpkg-local-source-", name.as_str()),
            None => cat2("forkpkg-local-source-", "package"),
        },
    }
}

/// The local source that a fork is built from.
pub open spec fn local_source(m: MetadataView, source: Text) -> Text {
    literal(source) + LOCAL_NAME@ + literal(local_name_of(m)) + LOCAL_FILTER@
}

fn local_source_expr(metadata: &Metadata, source: &str) -> (r: String)
    ensures
        r@ == local_source(metadata.deep_view(), source@),
{
    let mut r = nix_string(source);
    r.append(LOCAL_NAME);
    r.append(nix_string(local_name(metadata).as_str()).as_str());
    r.append(LOCAL_FILTER);
    r
}

/// The expression that builds a fork: the package as it was, with the local source
/// and without its patches.
pub open spec fn fork_expression(m: MetadataView, source: Text) -> Text {
    LET_FLAKE@ + literal(m.package.flake_ref) + SYSTEM_PACKAGES@ + literal(m.package.system)
        + SYSTEM_PACKAGE@ + literal_list(attribute_path(m.package.attribute)) + OR_THROW@
        + missing_attribute(m.package.attribute) + LOCAL_SOURCE@ + local_source(m, source)
        + BUILD_BODY@
}

pub open spec fn fork_build(m: MetadataView, source_path: Text, read: PathReadView) -> Result<
    Seq<Text>,
    Text,
> {
    match source_of(m, source_path, read) {
        Ok(source) => Ok(build_arguments(fork_expression(m, source))),
        Err(problem) => Err(problem),
    }
}

/// The arguments of the nix command that builds a fork from its source.
pub fn build_local_source(metadata: &Metadata, source_path: &str, read: &PathRead) -> (r: Result<
    Vec<String>,
    Error,
>)
    ensures
        text::outcome(r) == fork_build(metadata.deep_view(), source_path@, read.deep_view()),
{
    let (attr_path, source) = match resolved_source(metadata, source_path, read) {
        Ok(found) => found,
        Err(error) => {
            return Err(error);
        },
    };
    let mut r = LET_FLAKE.to_owned();
    r.append(nix_string(metadata.package.flake_ref.as_str()).as_str());
    r.append(SYSTEM_PACKAGES);
    r.append(nix_string(metadata.package.system.as_str()).as_str());
    r.append(SYSTEM_PACKAGE);
    r.append(nix_string_list(&attr_path).as_str());
    r.append(OR_THROW);
    r.append(attribute_message(metadata.package.attribute.as_str()).as_str());
    r.append(LOCAL_SOURCE);
    r.append(local_source_expr(metadata, source.as_str()).as_str());
    r.append(BUILD_BODY);
    Ok(nix_build_expr(r))
}

/// The overlay that puts a fork in the place of its package.
pub open spec fn overlay_expression(m: MetadataView, source: Text) -> Text {
    OVERLAY_PACKAGE@ + literal_list(attribute_path(m.package.attribute)) + OVERLAY_THROW@
        + missing_attribute(m.package.attribute) + OVERLAY_SOURCE@ + local_source(m, source)
        + OVERLAY_BODY@
}

pub open spec fn overlay_of(m: MetadataView, source_path: Text, read: PathReadView) -> Result<
    Text,
    Text,
> {
    match source_of(m, source_path, read) {
        Ok(source) => Ok(overlay_expression(m, source)),
        Err(problem) => Err(problem),
    }
}

/// The text of the overlay that modules import.
pub fn local_source_overlay_expr(metadata: &Metadata, source_path: &str, read: &PathRead) -> (r:
    Result<String, Error>)
    ensures
        text::outcome(r) == overlay_of(metadata.deep_view(), source_path@, read.deep_view()),
{
    let (attr_path, source) = match resolved_source(metadata, source_path, read) {
        Ok(found) => found,
        Err(error) => {
            return Err(error);
        },
    };
    let mut r = OVERLAY_PACKAGE.to_owned();
    r.append(nix_string_list(&attr_path).as_str());
    r.append(OVERLAY_THROW);
    r.append(attribute_message(metadata.package.attribute.as_str()).as_str());
    r.append(OVERLAY_SOURCE);
    r.append(local_source_expr(metadata, source.as_str()).as_str());
    r.append(OVERLAY_BODY);
    Ok(r)
}

// ---- What a build printed

/// The first line that is not blank, without the white space around it.
pub open spec fn first_line(lines: Seq<Text>) -> Option<Text>
    decreases lines.len(),
{
    if lines.len() == 0 {
        None
    } else if text::stripped(lines[0]).len() > 0 {
        Some(text::stripped(lines[0]))
    } else {
        first_line(lines.drop_first())
    }
}

/// The output path that `nix build` printed, or why there is none.
pub open spec fn built_path(read: CommandView) -> Result<Text, Text> {
    match read {
        CommandView::Exited { status, .. } => Err("nix build failed with status "@ + status),
        _ => match command::printed("nix build"@, read) {
            Err(problem) => Err(problem),
            Ok(stdout) => match first_line(text::pieces(stdout, '\n')) {
                Some(path) => Ok(path),
                None => Err("nix build did not print an output path"@),
            },
        },
    }
}

fn output_path(read: &CommandRead) -> (r: Result<String, Error>)
    ensures
        text::outcome(r) == built_path(read.deep_view()),
{
    if let CommandRead::Exited { status, .. } = read {
        return Err(fail(cat2("nix build failed with status ", status.as_str())));
    }
    let stdout = match output_of("nix build", read) {
        Ok(stdout) => stdout,
        Err(error) => {
            return Err(error);
        },
    };
    let lines = split(stdout.as_str(), '\n');
    let ghost all = lines.deep_view();
    let mut i: usize = 0;
    assert(all.skip(0) =~= all);
    while i < lines.len()
        invariant
            i <= lines@.len(),
            all == lines.deep_view(),
            all.len() == lines@.len(),
            first_line(all) == first_line(all.skip(i as int)),
            built_path(read.deep_view()) == (match first_line(all) {
                Some(path) => Ok::<Text, Text>(path),
                None => Err("nix build did not print an output path"@),
            }),
        decreases lines@.len() - i,
    {
        assert(all.skip(i as int)[0] == lines@[i as int]@);
        let line = strip(lines[i].as_str());
        if !line.as_str().is_empty() {
            return Ok(line);
        }
        assert(all.skip(i as int).drop_first() =~= all.skip(i + 1));
        i += 1;
    }
    Err(fail("nix build did not print an output path".to_owned()))
}

/// The post-patch source that nix built.
pub fn materialized_source(read: &CommandRead) -> (r: Result<String, Error>)
    ensures
        text::outcome(r) == command::within(
            "failed to materialize post-patch source"@,
            built_path(read.deep_view()),
        ),
{
    in_context("failed to materialize post-patch source", output_path(read))
}

/// The output of the fork that nix built.
pub fn built_output(read: &CommandRead) -> (r: Result<String, Error>)
    ensures
        text::outcome(r) == command::within(
            "failed to build local fork"@,
            built_path(read.deep_view()),
        ),
{
    in_context("failed to build local fork", output_path(read))
}

} // verus!
