//! Configuration overrides: a tree of settings, flattened into `path=literal`
//! entries that the agent's command line takes one by one.

use crate::error::{CodexError, ErrorModel};
use crate::exec::CodexExec;
use crate::json::{is_last_of_key, Json, JsonValue, NumberModel};
use crate::text::{decimal_text, join, joined, push_decimal, texts};
use vstd::prelude::*;
use vstd::string::StringExecFns;

verus! {

/// What `serde_json::to_string` writes for a string: the string as a JSON
/// string literal, in double quotes and with what needs it escaped.
pub uninterp spec fn json_string_text(text: Seq<char>) -> Seq<char>;

/// Whether the character stands for itself in a JSON string literal: it is
/// no control character below U+0020, no double quote and no backslash.
pub open spec fn is_plain_char(c: char) -> bool {
    ' ' <= c && c != '"' && c != '\\'
}

/// Whether every character of the text stands for itself in a JSON string
/// literal.
pub open spec fn is_plain_text(text: Seq<char>) -> bool {
    forall|i: int| 0 <= i < text.len() ==> is_plain_char(#[trigger] text[i])
}

/// Calls `serde_json::to_string` on a string. The call writes into memory and
/// a string holds nothing that cannot be written, so it does not fail; what it
/// returns is the string's JSON literal. Only control characters below
/// U+0020, the double quote and the backslash are escaped, so a text without
/// them comes back as it is between two double quotes.
#[verifier::external_body]
fn json_string(text: &str) -> (r: Result<String, serde_json::Error>)
    ensures
        r is Ok,
        r matches Ok(literal) ==> literal@ == json_string_text(text@),
        r matches Ok(literal) ==> (is_plain_text(text@) ==> literal@ == (seq!['"']
            + text@).push('"')),
{
    serde_json::to_string(text)
}

/// A text as a JSON string literal: between double quotes as it is where
/// every character stands for itself, else as `serde_json::to_string` writes
/// it.
pub open spec fn quoted_text(text: Seq<char>) -> Seq<char> {
    if is_plain_text(text) {
        (seq!['"'] + text).push('"')
    } else {
        json_string_text(text)
    }
}

/// Whether a key may be written without quotes, as far as this character goes.
pub open spec fn is_bare_key_char(c: char) -> bool {
    ('a' <= c && c <= 'z') || ('A' <= c && c <= 'Z') || ('0' <= c && c <= '9') || c == '_' || c
        == '-'
}

/// Whether a key may be written without quotes: it holds only ASCII letters,
/// digits, `_` and `-`.
pub open spec fn is_bare_key(key: Seq<char>) -> bool {
    forall|i: int| 0 <= i < key.len() ==> is_bare_key_char(#[trigger] key[i])
}

/// A key as it stands in an inline table: bare where it may, else quoted.
pub open spec fn toml_key(key: Seq<char>) -> Seq<char> {
    if is_bare_key(key) {
        key
    } else {
        quoted_text(key)
    }
}

/// The path of the element at `index` of the array at `path`.
pub open spec fn element_path(path: Seq<char>, index: nat) -> Seq<char> {
    (path.push('[') + decimal_text(index)).push(']')
}

/// The path of the member `key` of the object at `path`.
pub open spec fn member_path(path: Seq<char>, key: Seq<char>) -> Seq<char> {
    path.push('.') + key
}

/// The literal that writes `value`, or the failure that the first part of it
/// that cannot be written gives. `path` names the value in that failure.
///
/// A `null` has no literal and is no failure: it is pruned, as the value
/// itself and wherever it stands inside an array or an inline table.
pub open spec fn literal_text(value: Json, path: Seq<char>) -> Result<
    Option<Seq<char>>,
    ErrorModel,
>
    decreases value, 0nat,
{
    match value {
        Json::Null => Ok(None),
        Json::Bool(b) => Ok(
            Some(
                if b {
                    "true"@
                } else {
                    "false"@
                },
            ),
        ),
        Json::Number(n) => if n.is_finite() {
            Ok(Some(n.text()))
        } else {
            Err(ErrorModel::InvalidConfigNumber(path))
        },
        Json::String(s) => Ok(Some(quoted_text(s))),
        Json::Array(items) => match element_literals(items, path, items.len()) {
            Ok(parts) => Ok(Some((seq!['['] + joined(parts, ", "@)).push(']'))),
            Err(e) => Err(e),
        },
        Json::Object(members) => match member_literals(members, path, members.len()) {
            Ok(parts) => Ok(Some((seq!['{'] + joined(parts, ", "@)).push('}'))),
            Err(e) => Err(e),
        },
    }
}

/// The literals of the first `n` elements of an array, in order, or the first
/// failure among them. An element that is `null` gives no literal; the other
/// elements keep their own index in the path of a failure.
pub open spec fn element_literals(items: Seq<Json>, path: Seq<char>, n: nat) -> Result<
    Seq<Seq<char>>,
    ErrorModel,
>
    decreases items, n,
{
    if n == 0 || n > items.len() {
        Ok(Seq::empty())
    } else {
        match element_literals(items, path, (n - 1) as nat) {
            Err(e) => Err(e),
            Ok(parts) => match literal_text(items[n - 1], element_path(path, (n - 1) as nat)) {
                Err(e) => Err(e),
                Ok(None) => Ok(parts),
                Ok(Some(literal)) => Ok(parts.push(literal)),
            },
        }
    }
}

/// The `key = literal` parts that the first `n` members of an inline table
/// give, in order, or the first failure among them. Of members with one key
/// only the last counts. A member with an empty key is a failure; one whose
/// value is `null` gives no part.
pub open spec fn member_literals(members: Seq<(Seq<char>, Json)>, path: Seq<char>, n: nat) -> Result<
    Seq<Seq<char>>,
    ErrorModel,
>
    decreases members, n,
{
    if n == 0 || n > members.len() {
        Ok(Seq::empty())
    } else {
        match member_literals(members, path, (n - 1) as nat) {
            Err(e) => Err(e),
            Ok(parts) => {
                let (key, child) = members[n - 1];
                if !is_last_of_key(members, n - 1) {
                    Ok(parts)
                } else if key.len() == 0 {
                    Err(ErrorModel::InvalidConfigKey)
                } else {
                    match literal_text(child, member_path(path, key)) {
                        Err(e) => Err(e),
                        Ok(None) => Ok(parts),
                        Ok(Some(literal)) => Ok(parts.push(toml_key(key) + " = "@ + literal)),
                    }
                }
            },
        }
    }
}

/// One override as the command line takes it: the path, `=` and the literal.
pub open spec fn entry_text(path: Seq<char>, literal: Seq<char>) -> Seq<char> {
    path.push('=') + literal
}

/// The path of the member `key` below `prefix`; at the root it is the key alone.
pub open spec fn child_path(prefix: Seq<char>, key: Seq<char>) -> Seq<char> {
    if prefix.len() == 0 {
        key
    } else {
        member_path(prefix, key)
    }
}

/// The overrides that `value` gives when it stands at `prefix` (empty for the
/// root), in order, or the first failure.
///
/// An object contributes what its members do, each below its dotted path; an
/// empty object contributes `prefix={}`, or nothing at the root. A `null`
/// contributes nothing. Any other value contributes the one entry
/// `prefix=literal`. At the root anything but an object is refused.
pub open spec fn override_entries(value: Json, prefix: Seq<char>) -> Result<
    Seq<Seq<char>>,
    ErrorModel,
>
    decreases value, 0nat,
{
    match value {
        Json::Object(members) => if members.len() == 0 {
            if prefix.len() == 0 {
                Ok(Seq::empty())
            } else {
                Ok(seq![prefix + "={}"@])
            }
        } else {
            member_entries(members, prefix, members.len())
        },
        _ => if prefix.len() == 0 {
            Err(ErrorModel::InvalidConfigRoot)
        } else {
            match literal_text(value, prefix) {
                Ok(Some(literal)) => Ok(seq![entry_text(prefix, literal)]),
                Ok(None) => Ok(Seq::empty()),
                Err(e) => Err(e),
            }
        },
    }
}

/// The overrides that the first `n` members of the object at `prefix` give, in
/// order, or the first failure among them. Of members with one key only the
/// last counts. A member with an empty key is a failure; one whose value is
/// `null` gives nothing.
pub open spec fn member_entries(members: Seq<(Seq<char>, Json)>, prefix: Seq<char>, n: nat) -> Result<
    Seq<Seq<char>>,
    ErrorModel,
>
    decreases members, n,
{
    if n == 0 || n > members.len() {
        Ok(Seq::empty())
    } else {
        match member_entries(members, prefix, (n - 1) as nat) {
            Err(e) => Err(e),
            Ok(entries) => {
                let (key, child) = members[n - 1];
                if !is_last_of_key(members, n - 1) {
                    Ok(entries)
                } else if key.len() == 0 {
                    Err(ErrorModel::InvalidConfigKey)
                } else if child is Null {
                    Ok(entries)
                } else {
                    match override_entries(child, child_path(prefix, key)) {
                        Err(e) => Err(e),
                        Ok(more) => Ok(entries + more),
                    }
                }
            },
        }
    }
}

/// What a fallible list of texts stands for.
pub open spec fn list_outcome(r: Result<Vec<String>, CodexError>) -> Result<
    Seq<Seq<char>>,
    ErrorModel,
> {
    match r {
        Ok(list) => Ok(texts(list@)),
        Err(e) => Err(e@),
    }
}

/// What a fallible text that may be missing stands for.
pub open spec fn text_outcome(r: Result<Option<String>, CodexError>) -> Result<
    Option<Seq<char>>,
    ErrorModel,
> {
    match r {
        Ok(Some(text)) => Ok(Some(text@)),
        Ok(None) => Ok(None),
        Err(e) => Err(e@),
    }
}

impl CodexExec {
    /// Flattens a tree of configuration overrides into `path=literal` entries,
    /// in the order of the tree. The root must be an object. A `null`, wherever
    /// it stands below the root, gives no entry and no failure. Of members
    /// with one key only the last counts.
    pub fn serialize_config_overrides(config: &JsonValue) -> (r: Result<Vec<String>, CodexError>)
        ensures
            list_outcome(r) == override_entries(config@, Seq::empty()),
    {
        let mut overrides: Vec<String> = Vec::new();
        proof {
            reveal_strlit("");
            assert(""@ =~= Seq::<char>::empty());
            assert(texts(overrides@) =~= Seq::empty());
        }
        match Self::flatten_config_overrides(config, "", &mut overrides) {
            Ok(()) => {
                proof {
                    let entries = override_entries(config@, Seq::empty())->Ok_0;
                    assert(Seq::<Seq<char>>::empty() + entries =~= entries);
                }
                Ok(overrides)
            },
            Err(e) => Err(e),
        }
    }

    /// Appends to `overrides` the entries that `value` gives at `prefix`.
    ///
    /// On failure nothing that was in `overrides` is lost; entries written
    /// before the failure may follow it.
    #[verifier::loop_isolation(false)]
    pub fn flatten_config_overrides(
        value: &JsonValue,
        prefix: &str,
        overrides: &mut Vec<String>,
    ) -> (r: Result<(), CodexError>)
        ensures
            match override_entries(value@, prefix@) {
                Ok(entries) => r is Ok && texts(final(overrides)@) == texts(old(overrides)@)
                    + entries,
                Err(e) => r matches Err(failure) && failure@ == e,
            },
            old(overrides)@.len() <= final(overrides)@.len(),
            final(overrides)@.take(old(overrides)@.len() as int) == old(overrides)@,
        decreases value,
    {
        proof {
            reveal_strlit("");
        }
        let ghost before = overrides@;
        let members = match value {
            JsonValue::Object(members) => members,
            _ => {
                if prefix.is_empty() {
                    return Err(CodexError::InvalidConfigRoot);
                }
                match Self::to_toml_value(value, prefix) {
                    Ok(None) => {
                        assert(texts(overrides@) =~= texts(before) + Seq::<Seq<char>>::empty());
                        assert(overrides@.take(before.len() as int) =~= before);
                        return Ok(());
                    },
                    Ok(Some(literal)) => {
                        let mut entry = prefix.to_owned();
                        entry.push('=');
                        entry.append(literal.as_str());
                        overrides.push(entry);
                        assert(texts(overrides@) =~= texts(before) + seq![
                            entry_text(prefix@, literal@),
                        ]);
                        assert(overrides@.take(before.len() as int) =~= before);
                        return Ok(());
                    },
                    Err(e) => {
                        assert(overrides@.take(before.len() as int) =~= before);
                        return Err(e);
                    },
                }
            },
        };
        let ghost fields = value@->Object_0;
        if members.len() == 0 {
            if !prefix.is_empty() {
                let mut entry = prefix.to_owned();
                entry.append("={}");
                overrides.push(entry);
                assert(texts(overrides@) =~= texts(before) + seq![prefix@ + "={}"@]);
            } else {
                assert(texts(overrides@) =~= texts(before) + Seq::<Seq<char>>::empty());
            }
            assert(overrides@.take(before.len() as int) =~= before);
            return Ok(());
        }
        let mut index: usize = 0;
        assert(texts(overrides@) =~= texts(before) + Seq::<Seq<char>>::empty());
        assert(overrides@.take(before.len() as int) =~= before);
        while index < members.len()
            invariant
                index <= members.len(),
                fields.len() == members.len(),
                member_entries(fields, prefix@, index as nat) is Ok,
                texts(overrides@) == texts(before) + member_entries(
                    fields,
                    prefix@,
                    index as nat,
                )->Ok_0,
                before.len() <= overrides@.len(),
                overrides@.take(before.len() as int) == before,
            decreases members.len() - index,
        {
            let key = &members[index].0;
            let child = &members[index].1;
            assert(fields[index as int] == (key@, child@));
            proof {
                lemma_counts(fields, members@, index as int);
            }
            proof {
                lemma_entry_failure_stays(
                    fields,
                    prefix@,
                    (index + 1) as nat,
                    members.len() as nat,
                );
            }
            if !JsonValue::member_counts(members, index) {
                index += 1;
                continue;
            }
            if key.as_str().is_empty() {
                return Err(CodexError::InvalidConfigKey);
            }
            if !child.is_null() {
                let path = if prefix.is_empty() {
                    key.clone()
                } else {
                    let mut path = prefix.to_owned();
                    path.push('.');
                    path.append(key.as_str());
                    path
                };
                assert(path@ =~= child_path(prefix@, key@));
                let ghost so_far = overrides@;
                if child.is_object() {
                    match Self::flatten_config_overrides(child, path.as_str(), overrides) {
                        Ok(()) => {},
                        Err(e) => {
                            assert(overrides@.take(before.len() as int) =~= so_far.take(
                                before.len() as int,
                            ));
                            return Err(e);
                        },
                    }
                } else {
                    match Self::to_toml_value(child, path.as_str()) {
                        Ok(Some(literal)) => {
                            let mut entry = path.clone();
                            entry.push('=');
                            entry.append(literal.as_str());
                            overrides.push(entry);
                            assert(texts(overrides@) =~= texts(so_far) + seq![
                                entry_text(path@, literal@),
                            ]);
                        },
                        Ok(None) => {
                            assert(texts(overrides@) =~= texts(so_far) + Seq::<Seq<char>>::empty());
                        },
                        Err(e) => {
                            return Err(e);
                        },
                    }
                }
                proof {
                    let more = override_entries(child@, path@)->Ok_0;
                    let entries = member_entries(fields, prefix@, index as nat)->Ok_0;
                    assert(texts(before) + entries + more =~= texts(before) + (entries + more));
                    assert(overrides@.take(before.len() as int) =~= so_far.take(
                        before.len() as int,
                    ));
                }
            }
            index += 1;
        }
        Ok(())
    }

    /// Writes a key of an inline table: as it is where it is bare, else as a
    /// JSON string literal.
    pub fn format_toml_key(key: &str) -> (r: String)
        ensures
            r@ == toml_key(key@),
    {
        let mut is_bare = true;
        for ch in it: key.chars()
            invariant
                it.seq() == key@,
                is_bare == (forall|i: int|
                    0 <= i < it.index() ==> is_bare_key_char(#[trigger] key@[i])),
        {
            let plain = (ch >= 'a' && ch <= 'z') || (ch >= 'A' && ch <= 'Z') || (ch >= '0' && ch
                <= '9') || ch == '_' || ch == '-';
            if !plain {
                is_bare = false;
            }
        }
        if is_bare {
            key.to_owned()
        } else {
            match json_string(key) {
                Ok(quoted) => quoted,
                Err(_) => {
                    let mut quoted = String::new();
                    quoted.push('"');
                    quoted.append(key);
                    quoted.push('"');
                    quoted
                },
            }
        }
    }

    /// Writes `value` as one literal. `path` names the value in a failure.
    ///
    /// A string becomes its JSON literal, a boolean `true` or `false`, a finite
    /// number its text. An array becomes `[a, b]` of the literals of its
    /// elements, an object the inline table `{key = literal, other = literal}`
    /// of its members; an element or a member that is `null` is passed over,
    /// and of members with one key only the last counts. The first part that cannot be written decides the failure: a number
    /// that is not finite, or an empty key. A value that is `null` itself has
    /// no literal and is no failure: nothing comes back for it.
    #[verifier::loop_isolation(false)]
    pub fn to_toml_value(value: &JsonValue, path: &str) -> (r: Result<Option<String>, CodexError>)
        ensures
            text_outcome(r) == literal_text(value@, path@),
        decreases value,
    {
        match value {
            JsonValue::String(text) => match json_string(text.as_str()) {
                Ok(literal) => Ok(Some(literal)),
                Err(e) => Err(CodexError::Json(e)),
            },
            JsonValue::Number(number) => {
                if !number.is_finite() {
                    return Err(CodexError::InvalidConfigNumber(path.to_owned()));
                }
                Ok(Some(number.to_text()))
            },
            JsonValue::Bool(flag) => Ok(
                Some(
                    if *flag {
                        "true".to_owned()
                    } else {
                        "false".to_owned()
                    },
                ),
            ),
            JsonValue::Array(items) => {
                let ghost elements = value@->Array_0;
                let mut rendered: Vec<String> = Vec::new();
                let mut index: usize = 0;
                assert(texts(rendered@) =~= Seq::empty());
                while index < items.len()
                    invariant
                        index <= items.len(),
                        elements.len() == items.len(),
                        element_literals(elements, path@, index as nat) == Ok::<
                            Seq<Seq<char>>,
                            ErrorModel,
                        >(texts(rendered@)),
                    decreases items.len() - index,
                {
                    assert(elements[index as int] == items@[index as int]@);
                    if items[index].is_null() {
                        assert(literal_text(
                            elements[index as int],
                            element_path(path@, index as nat),
                        ) == Ok::<Option<Seq<char>>, ErrorModel>(None));
                        index += 1;
                        continue;
                    }
                    let mut item_path = path.to_owned();
                    item_path.push('[');
                    push_decimal(&mut item_path, index as u64);
                    item_path.push(']');
                    assert(item_path@ =~= element_path(path@, index as nat));
                    match Self::to_toml_value(&items[index], item_path.as_str()) {
                        Ok(Some(literal)) => {
                            proof {
                                assert(texts(rendered@.push(literal)) =~= texts(rendered@).push(
                                    literal@,
                                ));
                            }
                            rendered.push(literal);
                        },
                        Ok(None) => {},
                        Err(e) => {
                            proof {
                                lemma_element_failure_stays(
                                    elements,
                                    path@,
                                    (index + 1) as nat,
                                    items.len() as nat,
                                );
                            }
                            return Err(e);
                        },
                    }
                    index += 1;
                }
                let mut out = String::new();
                out.push('[');
                out.append(join(&rendered, ", ").as_str());
                out.push(']');
                Ok(Some(out))
            },
            JsonValue::Object(members) => {
                let ghost fields = value@->Object_0;
                let mut parts: Vec<String> = Vec::new();
                let mut index: usize = 0;
                assert(texts(parts@) =~= Seq::empty());
                while index < members.len()
                    invariant
                        index <= members.len(),
                        fields.len() == members.len(),
                        member_literals(fields, path@, index as nat) == Ok::<
                            Seq<Seq<char>>,
                            ErrorModel,
                        >(texts(parts@)),
                    decreases members.len() - index,
                {
                    let key = &members[index].0;
                    let child = &members[index].1;
                    assert(fields[index as int] == (key@, child@));
                    proof {
                        lemma_counts(fields, members@, index as int);
                    }
                    proof {
                        lemma_member_failure_stays(
                            fields,
                            path@,
                            (index + 1) as nat,
                            members.len() as nat,
                        );
                    }
                    if !JsonValue::member_counts(members, index) {
                        index += 1;
                        continue;
                    }
                    if key.as_str().is_empty() {
                        return Err(CodexError::InvalidConfigKey);
                    }
                    assert(child@ is Null ==> literal_text(child@, member_path(path@, key@)) == Ok::<
                        Option<Seq<char>>,
                        ErrorModel,
                    >(None));
                    if !child.is_null() {
                        let mut part = Self::format_toml_key(key.as_str());
                        let mut child_path = path.to_owned();
                        child_path.push('.');
                        child_path.append(key.as_str());
                        assert(child_path@ =~= member_path(path@, key@));
                        match Self::to_toml_value(child, child_path.as_str()) {
                            Ok(Some(literal)) => {
                                part.append(" = ");
                                part.append(literal.as_str());
                                proof {
                                    assert(texts(parts@.push(part)) =~= texts(parts@).push(part@));
                                }
                                parts.push(part);
                            },
                            Ok(None) => {},
                            Err(e) => {
                                return Err(e);
                            },
                        }
                    }
                    index += 1;
                }
                let mut out = String::new();
                out.push('{');
                out.append(join(&parts, ", ").as_str());
                out.push('}');
                Ok(Some(out))
            },
            JsonValue::Null => Ok(None),
        }
    }
}

/// Whether a member counts can be told from the keys as they are held.
proof fn lemma_counts(
    fields: Seq<(Seq<char>, Json)>,
    members: Seq<(String, JsonValue)>,
    at: int,
)
    requires
        0 <= at < members.len(),
        fields.len() == members.len(),
        forall|j: int| 0 <= j < members.len() ==> (#[trigger] fields[j]).0 == members[j].0@,
    ensures
        is_last_of_key(fields, at) == (forall|later: int|
            at < later < members.len() ==> (#[trigger] members[later]).0@ != members[at].0@),
{
    if is_last_of_key(fields, at) {
        assert forall|later: int| at < later < members.len() implies (#[trigger] members[later]).0@
            != members[at].0@ by {
            assert(fields[later].0 != fields[at].0);
        }
    } else {
        let later = choose|later: int|
            at < later < fields.len() && (#[trigger] fields[later]).0 == fields[at].0;
        assert(members[later].0@ == members[at].0@);
    }
}

/// Once one of the first `n` elements fails, that failure is the array's.
proof fn lemma_element_failure_stays(items: Seq<Json>, path: Seq<char>, n: nat, m: nat)
    requires
        n <= m <= items.len(),
        element_literals(items, path, n) is Err,
    ensures
        element_literals(items, path, m) == element_literals(items, path, n),
    decreases m,
{
    if n < m {
        lemma_element_failure_stays(items, path, n, (m - 1) as nat);
    }
}

/// Once one of the first `n` members fails, that failure is the object's.
proof fn lemma_entry_failure_stays(
    members: Seq<(Seq<char>, Json)>,
    prefix: Seq<char>,
    n: nat,
    m: nat,
)
    requires
        n <= m <= members.len(),
    ensures
        member_entries(members, prefix, n) is Err ==> member_entries(members, prefix, m)
            == member_entries(members, prefix, n),
    decreases m,
{
    if n < m {
        lemma_entry_failure_stays(members, prefix, n, (m - 1) as nat);
    }
}

/// Once one of the first `n` members fails, that failure is the table's.
proof fn lemma_member_failure_stays(
    members: Seq<(Seq<char>, Json)>,
    path: Seq<char>,
    n: nat,
    m: nat,
)
    requires
        n <= m <= members.len(),
    ensures
        member_literals(members, path, n) is Err ==> member_literals(members, path, m)
            == member_literals(members, path, n),
    decreases m,
{
    if n < m {
        lemma_member_failure_stays(members, path, n, (m - 1) as nat);
    }
}

/// The same tree always gives the same overrides: two results that both come
/// from flattening one tree are equal, entry for entry or failure for failure.
pub proof fn lemma_same_tree_same_overrides(
    config: JsonValue,
    first: Result<Vec<String>, CodexError>,
    second: Result<Vec<String>, CodexError>,
)
    requires
        list_outcome(first) == override_entries(config@, Seq::empty()),
        list_outcome(second) == override_entries(config@, Seq::empty()),
    ensures
        list_outcome(first) == list_outcome(second),
{
}

/// An empty object that is nested at a path gives the one entry `path={}`;
/// an empty root gives no entry.
pub proof fn lemma_empty_object(prefix: Seq<char>)
    ensures
        override_entries(Json::Object(Seq::empty()), prefix) == if prefix.len() == 0 {
            Ok::<Seq<Seq<char>>, ErrorModel>(Seq::empty())
        } else {
            Ok(seq![prefix + "={}"@])
        },
{
}

/// A number that is not finite is refused wherever a literal is asked of it,
/// with the failure that names its path.
pub proof fn lemma_non_finite_number_is_refused(number: NumberModel, path: Seq<char>)
    requires
        !number.is_finite(),
    ensures
        literal_text(Json::Number(number), path) == Err::<Option<Seq<char>>, ErrorModel>(
            ErrorModel::InvalidConfigNumber(path),
        ),
        path.len() > 0 ==> override_entries(Json::Number(number), path) == Err::<
            Seq<Seq<char>>,
            ErrorModel,
        >(ErrorModel::InvalidConfigNumber(path)),
{
}

/// Whether a number that is not finite stands in the tree where it counts:
/// as the value itself, in an element of an array, or in a member of an
/// object that is the last of its key.
pub open spec fn holds_non_finite_number(value: Json) -> bool
    decreases value,
{
    match value {
        Json::Number(number) => !number.is_finite(),
        Json::Array(items) => exists|i: int|
            0 <= i < items.len() && holds_non_finite_number(#[trigger] items[i]),
        Json::Object(members) => exists|i: int|
            0 <= i < members.len() && is_last_of_key(members, i) && holds_non_finite_number(
                (#[trigger] members[i]).1,
            ),
        _ => false,
    }
}

/// A value that holds a number that is not finite has no literal.
pub proof fn lemma_non_finite_number_has_no_literal(value: Json, path: Seq<char>)
    requires
        holds_non_finite_number(value),
    ensures
        literal_text(value, path) is Err,
    decreases value,
{
    match value {
        Json::Array(items) => {
            let i = choose|i: int|
                0 <= i < items.len() && holds_non_finite_number(#[trigger] items[i]);
            lemma_non_finite_number_has_no_literal(items[i], element_path(path, i as nat));
            assert(element_literals(items, path, (i + 1) as nat) is Err);
            lemma_element_failure_stays(items, path, (i + 1) as nat, items.len());
        },
        Json::Object(members) => {
            let i = choose|i: int|
                0 <= i < members.len() && is_last_of_key(members, i) && holds_non_finite_number(
                    (#[trigger] members[i]).1,
                );
            if members[i].0.len() > 0 {
                lemma_non_finite_number_has_no_literal(
                    members[i].1,
                    member_path(path, members[i].0),
                );
            }
            assert(member_literals(members, path, (i + 1) as nat) is Err);
            lemma_member_failure_stays(members, path, (i + 1) as nat, members.len());
        },
        _ => {},
    }
}

/// A tree that holds a number that is not finite gives no overrides: its
/// flattening fails, wherever the number stands.
pub proof fn lemma_non_finite_number_fails(value: Json, prefix: Seq<char>)
    requires
        holds_non_finite_number(value),
    ensures
        override_entries(value, prefix) is Err,
    decreases value,
{
    match value {
        Json::Object(members) => {
            let i = choose|i: int|
                0 <= i < members.len() && is_last_of_key(members, i) && holds_non_finite_number(
                    (#[trigger] members[i]).1,
                );
            if members[i].0.len() > 0 {
                lemma_non_finite_number_fails(members[i].1, child_path(prefix, members[i].0));
            }
            assert(member_entries(members, prefix, (i + 1) as nat) is Err);
            lemma_entry_failure_stays(members, prefix, (i + 1) as nat, members.len());
        },
        _ => {
            lemma_non_finite_number_has_no_literal(value, prefix);
        },
    }
}

/// Whether no member has this key.
pub open spec fn is_new_key(members: Seq<(Seq<char>, Json)>, key: Seq<char>) -> bool {
    forall|j: int| 0 <= j < members.len() ==> (#[trigger] members[j]).0 != key
}

/// The place that the member at `j` has once another was put in at `at`.
pub open spec fn place_after_insert(at: int, j: int) -> int {
    if j < at {
        j
    } else {
        j + 1
    }
}

/// A member with a new key takes the place of none: it counts, and the
/// others count as they did.
pub proof fn lemma_new_member_shadows_none(
    members: Seq<(Seq<char>, Json)>,
    at: int,
    member: (Seq<char>, Json),
    j: int,
)
    requires
        0 <= at <= members.len(),
        is_new_key(members, member.0),
        0 <= j < members.len(),
    ensures
        is_last_of_key(members.insert(at, member), place_after_insert(at, j)) == is_last_of_key(
            members,
            j,
        ),
        is_last_of_key(members.insert(at, member), at),
{
    let with = members.insert(at, member);
    let place = place_after_insert(at, j);
    assert(with[place] == members[j]);
    assert forall|later: int| at < later < with.len() implies (#[trigger] with[later]).0
        != with[at].0 by {
        assert(with[later] == members[later - 1]);
    }
    if is_last_of_key(members, j) {
        assert forall|later: int| place < later < with.len() implies (#[trigger] with[later]).0
            != with[place].0 by {
            if later < at {
                assert(with[later] == members[later]);
            } else if later > at {
                assert(with[later] == members[later - 1]);
            }
        }
    }
    if is_last_of_key(with, place) {
        assert forall|later: int| j < later < members.len() implies (#[trigger] members[later]).0
            != members[j].0 by {
            assert(with[place_after_insert(at, later)] == members[later]);
        }
    }
}

/// A member whose value is `null` gives no entry: with it or without it, the
/// members of an object give the same overrides.
pub proof fn lemma_null_member_gives_no_entry(
    members: Seq<(Seq<char>, Json)>,
    prefix: Seq<char>,
    at: int,
    key: Seq<char>,
    n: nat,
)
    requires
        0 <= at <= members.len(),
        key.len() > 0,
        is_new_key(members, key),
        n <= members.len(),
    ensures
        n <= at ==> member_entries(members.insert(at, (key, Json::Null)), prefix, n)
            == member_entries(members, prefix, n),
        at <= n ==> member_entries(members.insert(at, (key, Json::Null)), prefix, n + 1)
            == member_entries(members, prefix, n),
    decreases n,
{
    let with_null = members.insert(at, (key, Json::Null));
    if n > 0 {
        lemma_null_member_gives_no_entry(members, prefix, at, key, (n - 1) as nat);
        lemma_new_member_shadows_none(members, at, (key, Json::Null), n - 1);
        if n <= at {
            assert(with_null[n - 1] == members[n - 1]);
        }
        if at < n {
            assert(with_null[n as int] == members[n - 1]);
        }
    }
    if at == n {
        assert(with_null[at] == (key, Json::Null));
    }
}

/// A member whose value is `null` gives no part of an inline table: with it
/// or without it, the members give the same parts.
pub proof fn lemma_null_member_gives_no_part(
    members: Seq<(Seq<char>, Json)>,
    path: Seq<char>,
    at: int,
    key: Seq<char>,
    n: nat,
)
    requires
        0 <= at <= members.len(),
        key.len() > 0,
        is_new_key(members, key),
        n <= members.len(),
    ensures
        n <= at ==> member_literals(members.insert(at, (key, Json::Null)), path, n)
            == member_literals(members, path, n),
        at <= n ==> member_literals(members.insert(at, (key, Json::Null)), path, n + 1)
            == member_literals(members, path, n),
    decreases n,
{
    let with_null = members.insert(at, (key, Json::Null));
    if n > 0 {
        lemma_null_member_gives_no_part(members, path, at, key, (n - 1) as nat);
        lemma_new_member_shadows_none(members, at, (key, Json::Null), n - 1);
        if n <= at {
            assert(with_null[n - 1] == members[n - 1]);
        }
        if at < n {
            assert(with_null[n as int] == members[n - 1]);
        }
    }
    if at == n {
        assert(with_null[at] == (key, Json::Null));
        assert(literal_text(Json::Null, member_path(path, key)) == Ok::<
            Option<Seq<char>>,
            ErrorModel,
        >(None));
    }
}

/// A literal does not depend on the path, which only a failure names: a
/// value that has a literal at one path has the same literal at any other.
pub proof fn lemma_literal_needs_no_path(value: Json, path: Seq<char>, other: Seq<char>)
    requires
        literal_text(value, path) is Ok,
    ensures
        literal_text(value, other) == literal_text(value, path),
    decreases value, 0nat,
{
    match value {
        Json::Array(items) => {
            lemma_elements_need_no_path(items, path, other, items.len());
        },
        Json::Object(members) => {
            lemma_members_need_no_path(members, path, other, members.len());
        },
        _ => {},
    }
}

/// Elements that have literals at one path have the same literals at any
/// other.
proof fn lemma_elements_need_no_path(items: Seq<Json>, path: Seq<char>, other: Seq<char>, n: nat)
    requires
        n <= items.len(),
        element_literals(items, path, n) is Ok,
    ensures
        element_literals(items, other, n) == element_literals(items, path, n),
    decreases items, n,
{
    if n > 0 {
        lemma_elements_need_no_path(items, path, other, (n - 1) as nat);
        lemma_literal_needs_no_path(
            items[n - 1],
            element_path(path, (n - 1) as nat),
            element_path(other, (n - 1) as nat),
        );
    }
}

/// Members that give parts of an inline table at one path give the same
/// parts at any other.
proof fn lemma_members_need_no_path(
    members: Seq<(Seq<char>, Json)>,
    path: Seq<char>,
    other: Seq<char>,
    n: nat,
)
    requires
        n <= members.len(),
        member_literals(members, path, n) is Ok,
    ensures
        member_literals(members, other, n) == member_literals(members, path, n),
    decreases members, n,
{
    if n > 0 {
        lemma_members_need_no_path(members, path, other, (n - 1) as nat);
        let (key, child) = members[n - 1];
        if is_last_of_key(members, n - 1) && key.len() > 0 {
            lemma_literal_needs_no_path(child, member_path(path, key), member_path(other, key));
        }
    }
}

/// An element that is `null` gives no literal: elements that have literals
/// have the same literals with one more element that is `null`, wherever in
/// the array it stands.
pub proof fn lemma_null_element_gives_no_literal(
    items: Seq<Json>,
    path: Seq<char>,
    at: int,
    n: nat,
)
    requires
        0 <= at <= items.len(),
        n <= items.len(),
        element_literals(items, path, n) is Ok,
    ensures
        n <= at ==> element_literals(items.insert(at, Json::Null), path, n) == element_literals(
            items,
            path,
            n,
        ),
        at <= n ==> element_literals(items.insert(at, Json::Null), path, n + 1)
            == element_literals(items, path, n),
    decreases n,
{
    let with_null = items.insert(at, Json::Null);
    if n > 0 {
        lemma_null_element_gives_no_literal(items, path, at, (n - 1) as nat);
        if n <= at {
            assert(with_null[n - 1] == items[n - 1]);
        }
        if at < n {
            assert(with_null[n as int] == items[n - 1]);
            lemma_literal_needs_no_path(
                items[n - 1],
                element_path(path, (n - 1) as nat),
                element_path(path, n),
            );
        }
    }
    if at == n {
        assert(with_null[at] is Null);
        assert(literal_text(with_null[at], element_path(path, at as nat)) == Ok::<
            Option<Seq<char>>,
            ErrorModel,
        >(None));
    }
}

/// A `null` is pruned: a configuration gives the same overrides with a member
/// whose value is `null` as without it, wherever among the root's members it
/// stands, and an inline table is written the same with it as without it. An
/// array that has a literal has the same literal with one more element that is
/// `null`, wherever in the array it stands. A `null` at a path gives no entry.
pub proof fn lemma_null_is_pruned(
    members: Seq<(Seq<char>, Json)>,
    path: Seq<char>,
    at: int,
    key: Seq<char>,
    items: Seq<Json>,
    place: int,
)
    requires
        0 <= at <= members.len(),
        key.len() > 0,
        is_new_key(members, key),
        0 <= place <= items.len(),
    ensures
        override_entries(Json::Object(members.insert(at, (key, Json::Null))), Seq::empty())
            == override_entries(Json::Object(members), Seq::empty()),
        literal_text(Json::Object(members.insert(at, (key, Json::Null))), path) == literal_text(
            Json::Object(members),
            path,
        ),
        literal_text(Json::Array(items), path) is Ok ==> literal_text(
            Json::Array(items.insert(place, Json::Null)),
            path,
        ) == literal_text(Json::Array(items), path),
        path.len() > 0 ==> override_entries(Json::Null, path) == Ok::<Seq<Seq<char>>, ErrorModel>(
            Seq::empty(),
        ),
        literal_text(Json::Null, path) == Ok::<Option<Seq<char>>, ErrorModel>(None),
{
    lemma_null_member_gives_no_entry(members, Seq::empty(), at, key, members.len());
    lemma_null_member_gives_no_part(members, path, at, key, members.len());
    if literal_text(Json::Array(items), path) is Ok {
        lemma_null_element_gives_no_literal(items, path, place, items.len());
    }
}

/// Flattening a configuration that gives overrides gives the same overrides
/// for the same configuration with one more `null` somewhere in it.
pub proof fn lemma_added_null_gives_same_overrides(
    before: JsonValue,
    after: JsonValue,
    first: Result<Vec<String>, CodexError>,
    second: Result<Vec<String>, CodexError>,
)
    requires
        gains_null(before@, after@),
        first is Ok,
        list_outcome(first) == override_entries(before@, Seq::empty()),
        list_outcome(second) == override_entries(after@, Seq::empty()),
    ensures
        list_outcome(second) == list_outcome(first),
{
    lemma_added_null_changes_nothing(before@, after@, Seq::empty());
}

/// Whether `others` are `members` but for the value of the member at `i`.
pub open spec fn differs_in_member(
    members: Seq<(Seq<char>, Json)>,
    others: Seq<(Seq<char>, Json)>,
    i: int,
) -> bool {
    &&& 0 <= i < members.len()
    &&& others.len() == members.len()
    &&& forall|j: int| 0 <= j < members.len() ==> (#[trigger] others[j]).0 == members[j].0
    &&& forall|j: int| 0 <= j < members.len() && j != i ==> #[trigger] others[j] == members[j]
}

/// Whether `others` are `items` but for the element at `i`.
pub open spec fn differs_in_element(items: Seq<Json>, others: Seq<Json>, i: int) -> bool {
    &&& 0 <= i < items.len()
    &&& others.len() == items.len()
    &&& forall|j: int| 0 <= j < items.len() && j != i ==> #[trigger] others[j] == items[j]
}

/// Whether `others` are `members` with one more member at `at`, whose key is
/// new and not empty and whose value is `null`.
pub open spec fn is_with_null_member(
    members: Seq<(Seq<char>, Json)>,
    others: Seq<(Seq<char>, Json)>,
    at: int,
    key: Seq<char>,
) -> bool {
    &&& 0 <= at <= members.len()
    &&& key.len() > 0
    &&& is_new_key(members, key)
    &&& others =~= members.insert(at, (key, Json::Null))
}

/// Whether `after` is `before` with one more member, of a new key and the
/// value `null`, in one of its objects that has a member already: in the
/// value itself, or in an object at any place below it, in a member or in an
/// element of an array.
pub open spec fn gains_null_member(before: Json, after: Json) -> bool
    decreases before,
{
    match (before, after) {
        (Json::Object(members), Json::Object(others)) => {
            ||| members.len() > 0 && exists|at: int, key: Seq<char>| #[trigger]
                is_with_null_member(members, others, at, key)
            ||| exists|i: int|
                0 <= i < members.len() && #[trigger] differs_in_member(members, others, i)
                    && gains_null_member(members[i].1, others[i].1)
        },
        (Json::Array(items), Json::Array(others)) => exists|i: int|
            0 <= i < items.len() && #[trigger] differs_in_element(items, others, i)
                && gains_null_member(items[i], others[i]),
        _ => false,
    }
}

/// Members with the same keys count alike.
proof fn lemma_same_keys_count_alike(
    members: Seq<(Seq<char>, Json)>,
    others: Seq<(Seq<char>, Json)>,
    at: int,
)
    requires
        0 <= at < members.len(),
        others.len() == members.len(),
        forall|j: int| 0 <= j < members.len() ==> (#[trigger] others[j]).0 == members[j].0,
    ensures
        is_last_of_key(others, at) == is_last_of_key(members, at),
{
    if is_last_of_key(members, at) {
        assert forall|later: int| at < later < others.len() implies (#[trigger] others[later]).0
            != others[at].0 by {
            assert(members[later].0 != members[at].0);
        }
    }
    if is_last_of_key(others, at) {
        assert forall|later: int| at < later < members.len() implies (#[trigger] members[later]).0
            != members[at].0 by {
            assert(others[later].0 != others[at].0);
        }
    }
}

/// Where one member's value changes and gives the same overrides as before,
/// the members give the same overrides as before.
proof fn lemma_entries_follow_member(
    members: Seq<(Seq<char>, Json)>,
    others: Seq<(Seq<char>, Json)>,
    prefix: Seq<char>,
    i: int,
    n: nat,
)
    requires
        differs_in_member(members, others, i),
        n <= members.len(),
        !is_last_of_key(members, i) || members[i].0.len() == 0 || ((others[i].1 is Null) == (
        members[i].1 is Null) && override_entries(
            others[i].1,
            child_path(prefix, members[i].0),
        ) == override_entries(members[i].1, child_path(prefix, members[i].0))),
    ensures
        member_entries(others, prefix, n) == member_entries(members, prefix, n),
    decreases n,
{
    if n > 0 {
        lemma_entries_follow_member(members, others, prefix, i, (n - 1) as nat);
        lemma_same_keys_count_alike(members, others, n - 1);
        assert(others[n - 1].0 == members[n - 1].0);
        if n - 1 != i {
            assert(others[n - 1] == members[n - 1]);
        }
    }
}

/// Where one member's value changes and has the same literal as before, the
/// members give the same parts of an inline table as before.
proof fn lemma_parts_follow_member(
    members: Seq<(Seq<char>, Json)>,
    others: Seq<(Seq<char>, Json)>,
    path: Seq<char>,
    i: int,
    n: nat,
)
    requires
        differs_in_member(members, others, i),
        n <= members.len(),
        !is_last_of_key(members, i) || members[i].0.len() == 0 || literal_text(
            others[i].1,
            member_path(path, members[i].0),
        ) == literal_text(members[i].1, member_path(path, members[i].0)),
    ensures
        member_literals(others, path, n) == member_literals(members, path, n),
    decreases n,
{
    if n > 0 {
        lemma_parts_follow_member(members, others, path, i, (n - 1) as nat);
        lemma_same_keys_count_alike(members, others, n - 1);
        assert(others[n - 1].0 == members[n - 1].0);
        if n - 1 != i {
            assert(others[n - 1] == members[n - 1]);
        }
    }
}

/// Where one element changes and has the same literal as before, the
/// elements give the same literals as before.
proof fn lemma_literals_follow_element(
    items: Seq<Json>,
    others: Seq<Json>,
    path: Seq<char>,
    i: int,
    n: nat,
)
    requires
        differs_in_element(items, others, i),
        n <= items.len(),
        literal_text(others[i], element_path(path, i as nat)) == literal_text(
            items[i],
            element_path(path, i as nat),
        ),
    ensures
        element_literals(others, path, n) == element_literals(items, path, n),
    decreases n,
{
    if n > 0 {
        lemma_literals_follow_element(items, others, path, i, (n - 1) as nat);
        if n - 1 != i {
            assert(others[n - 1] == items[n - 1]);
        }
    }
}

/// A `null` is pruned wherever it is added: a tree with one more member of the
/// value `null`, in any of its objects that has a member already, gives the
/// same overrides at every prefix and has the same literal at every path, in
/// the same order and with the same failure where there is one. No entry
/// stands for the new member, and none fails because of it.
pub proof fn lemma_added_null_member_changes_nothing(before: Json, after: Json, path: Seq<char>)
    requires
        gains_null_member(before, after),
    ensures
        override_entries(after, path) == override_entries(before, path),
        literal_text(after, path) == literal_text(before, path),
    decreases before,
{
    match (before, after) {
        (Json::Object(members), Json::Object(others)) => {
            if members.len() > 0 && exists|at: int, key: Seq<char>| #[trigger]
                is_with_null_member(members, others, at, key) {
                let (at, key) = choose|at: int, key: Seq<char>| #[trigger]
                    is_with_null_member(members, others, at, key);
                lemma_null_member_gives_no_entry(members, path, at, key, members.len());
                lemma_null_member_gives_no_part(members, path, at, key, members.len());
            } else {
                let i = choose|i: int|
                    0 <= i < members.len() && #[trigger] differs_in_member(members, others, i)
                        && gains_null_member(members[i].1, others[i].1);
                let key = members[i].0;
                lemma_added_null_member_changes_nothing(
                    members[i].1,
                    others[i].1,
                    child_path(path, key),
                );
                lemma_added_null_member_changes_nothing(
                    members[i].1,
                    others[i].1,
                    member_path(path, key),
                );
                lemma_entries_follow_member(members, others, path, i, members.len());
                lemma_parts_follow_member(members, others, path, i, members.len());
            }
        },
        (Json::Array(items), Json::Array(others)) => {
            let i = choose|i: int|
                0 <= i < items.len() && #[trigger] differs_in_element(items, others, i)
                    && gains_null_member(items[i], others[i]);
            lemma_added_null_member_changes_nothing(
                items[i],
                others[i],
                element_path(path, i as nat),
            );
            lemma_literals_follow_element(items, others, path, i, items.len());
        },
        _ => {},
    }
}

/// Whether `others` are `items` with one more element at `at`, which is
/// `null`.
pub open spec fn is_with_null_element(items: Seq<Json>, others: Seq<Json>, at: int) -> bool {
    0 <= at <= items.len() && others =~= items.insert(at, Json::Null)
}

/// Whether `after` is `before` with one more `null` in it: as a member with a
/// new key in an object that has a member already, or as an element of an
/// array, in the value itself or at any place below it.
pub open spec fn gains_null(before: Json, after: Json) -> bool
    decreases before,
{
    match (before, after) {
        (Json::Object(members), Json::Object(others)) => {
            ||| members.len() > 0 && exists|at: int, key: Seq<char>| #[trigger]
                is_with_null_member(members, others, at, key)
            ||| exists|i: int|
                0 <= i < members.len() && #[trigger] differs_in_member(members, others, i)
                    && gains_null(members[i].1, others[i].1)
        },
        (Json::Array(items), Json::Array(others)) => {
            ||| exists|at: int| #[trigger] is_with_null_element(items, others, at)
            ||| exists|i: int|
                0 <= i < items.len() && #[trigger] differs_in_element(items, others, i)
                    && gains_null(items[i], others[i])
        },
        _ => false,
    }
}

/// Members that give overrides give them step by step: none of the first `n`
/// fails.
proof fn lemma_entries_succeed_throughout(
    members: Seq<(Seq<char>, Json)>,
    prefix: Seq<char>,
    n: nat,
)
    requires
        n <= members.len(),
        member_entries(members, prefix, members.len()) is Ok,
    ensures
        member_entries(members, prefix, n) is Ok,
{
    lemma_entry_failure_stays(members, prefix, n, members.len());
}

/// Members that give parts give them step by step: none of the first `n`
/// fails.
proof fn lemma_parts_succeed_throughout(members: Seq<(Seq<char>, Json)>, path: Seq<char>, n: nat)
    requires
        n <= members.len(),
        member_literals(members, path, members.len()) is Ok,
    ensures
        member_literals(members, path, n) is Ok,
{
    lemma_member_failure_stays(members, path, n, members.len());
}

/// Elements that give literals give them step by step: none of the first `n`
/// fails.
proof fn lemma_literals_succeed_throughout(items: Seq<Json>, path: Seq<char>, n: nat)
    requires
        n <= items.len(),
        element_literals(items, path, items.len()) is Ok,
    ensures
        element_literals(items, path, n) is Ok,
{
    if element_literals(items, path, n) is Err {
        lemma_element_failure_stays(items, path, n, items.len());
    }
}

/// A `null` is pruned wherever it is added. A tree that gives overrides
/// gives the same overrides, in the same order, with one more `null` in it:
/// a member of any of its objects that has a member already, or an element of
/// any of its arrays. Likewise a value that has a literal has the same
/// literal. No entry stands for the `null`, and nothing fails because of it.
pub proof fn lemma_added_null_changes_nothing(before: Json, after: Json, path: Seq<char>)
    requires
        gains_null(before, after),
    ensures
        override_entries(before, path) is Ok ==> override_entries(after, path) == override_entries(
            before,
            path,
        ),
        literal_text(before, path) is Ok ==> literal_text(after, path) == literal_text(
            before,
            path,
        ),
    decreases before,
{
    match (before, after) {
        (Json::Object(members), Json::Object(others)) => {
            if members.len() > 0 && exists|at: int, key: Seq<char>| #[trigger]
                is_with_null_member(members, others, at, key) {
                let (at, key) = choose|at: int, key: Seq<char>| #[trigger]
                    is_with_null_member(members, others, at, key);
                lemma_null_member_gives_no_entry(members, path, at, key, members.len());
                lemma_null_member_gives_no_part(members, path, at, key, members.len());
            } else {
                let i = choose|i: int|
                    0 <= i < members.len() && #[trigger] differs_in_member(members, others, i)
                        && gains_null(members[i].1, others[i].1);
                let key = members[i].0;
                lemma_added_null_changes_nothing(members[i].1, others[i].1, child_path(path, key));
                lemma_added_null_changes_nothing(
                    members[i].1,
                    others[i].1,
                    member_path(path, key),
                );
                if override_entries(before, path) is Ok {
                    lemma_entries_succeed_throughout(members, path, (i + 1) as nat);
                    lemma_entries_succeed_throughout(members, path, i as nat);
                    lemma_entries_follow_member(members, others, path, i, members.len());
                }
                if literal_text(before, path) is Ok {
                    lemma_parts_succeed_throughout(members, path, (i + 1) as nat);
                    lemma_parts_succeed_throughout(members, path, i as nat);
                    lemma_parts_follow_member(members, others, path, i, members.len());
                }
            }
        },
        (Json::Array(items), Json::Array(others)) => {
            if literal_text(before, path) is Ok {
                if exists|at: int| #[trigger] is_with_null_element(items, others, at) {
                    let at = choose|at: int| #[trigger] is_with_null_element(items, others, at);
                    lemma_null_element_gives_no_literal(items, path, at, items.len());
                } else {
                    let i = choose|i: int|
                        0 <= i < items.len() && #[trigger] differs_in_element(items, others, i)
                            && gains_null(items[i], others[i]);
                    lemma_added_null_changes_nothing(
                        items[i],
                        others[i],
                        element_path(path, i as nat),
                    );
                    lemma_literals_succeed_throughout(items, path, (i + 1) as nat);
                    lemma_literals_succeed_throughout(items, path, i as nat);
                    lemma_literals_follow_element(items, others, path, i, items.len());
                }
            }
        },
        _ => {},
    }
}

} // verus!
