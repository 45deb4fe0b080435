//! `dopbase init`: the interactive import of a `.env` file, its summary of
//! what looks sensitive, the project/environment it asks for and the
//! clean-up of the file afterwards.

use crate::models::SecretInput;
use crate::text::{counted, counted_text, decimal, occurs_at, same_text, u64_to_string};
use vstd::prelude::*;
use vstd::string::*;

verus! {

/// ASCII lower-case letters turned to upper case; other characters kept.
pub open spec fn ascii_upper(c: char) -> char {
    if 'a' <= c && c <= 'z' {
        ((c as int) - 32) as char
    } else {
        c
    }
}

/// An ASCII letter or digit.
pub open spec fn is_ascii_alphanumeric(c: char) -> bool {
    ('0' <= c && c <= '9') || ('A' <= c && c <= 'Z') || ('a' <= c && c <= 'z')
}

/// `w` is one of the pieces of `s` split at every character that is not an
/// ASCII letter or digit (for `w` made of letters and digits only).
pub open spec fn is_word(s: Seq<char>, w: Seq<char>) -> bool {
    exists|i: int|
        #![trigger occurs_at(s, w, i)]
        occurs_at(s, w, i) && (i == 0 || !is_ascii_alphanumeric(s[i - 1])) && (i + w.len() == s.len()
            || !is_ascii_alphanumeric(s[i + w.len()]))
}

/// The whole words that mark a key as sensitive.
pub open spec fn sensitive_words() -> Seq<Seq<char>> {
    seq![
        "SECRET"@,
        "TOKEN"@,
        "PASSWORD"@,
        "PASSWD"@,
        "PWD"@,
        "CREDENTIAL"@,
        "CREDENTIALS"@,
    ]
}

/// The compounds that mark a key as sensitive wherever they occur.
pub open spec fn sensitive_compounds() -> Seq<Seq<char>> {
    seq![
        "API_KEY"@,
        "ACCESS_KEY"@,
        "PRIVATE_KEY"@,
        "CLIENT_SECRET"@,
        "DATABASE_URL"@,
        "DB_URL"@,
        "CONNECTION_STRING"@,
        "AUTH_KEY"@,
        "AUTH_TOKEN"@,
    ]
}

/// A key looks sensitive when, in ASCII upper case, one of its words is a
/// sensitive word or it contains a sensitive compound.
pub open spec fn sensitive(key: Seq<char>) -> bool {
    let n = key.map_values(|c: char| ascii_upper(c));
    ||| exists|k: int| 0 <= k < sensitive_words().len() && is_word(n, #[trigger] sensitive_words()[k])
    ||| exists|k: int|
        0 <= k < sensitive_compounds().len() && crate::text::contains_text(
            n,
            #[trigger] sensitive_compounds()[k],
        )
}

fn upper_chars(key: &str) -> (res: Vec<char>)
    ensures
        res@ == key@.map_values(|c: char| ascii_upper(c)),
{
    let n = key.unicode_len();
    let mut res: Vec<char> = Vec::new();
    let mut i: usize = 0;
    while i < n
        invariant
            n == key@.len(),
            i <= n,
            res@ == key@.take(i as int).map_values(|c: char| ascii_upper(c)),
        decreases n - i,
    {
        let c = key.get_char(i);
        let u = if 'a' <= c && c <= 'z' {
            ((c as u32) - 32) as u8 as char
        } else {
            c
        };
        assert(u == ascii_upper(c));
        res.push(u);
        assert(key@.take(i + 1).map_values(|c: char| ascii_upper(c)) =~= key@.take(i as int).map_values(
            |c: char| ascii_upper(c),
        ).push(ascii_upper(c)));
        i = i + 1;
    }
    assert(key@.take(n as int) =~= key@);
    res
}

fn alphanumeric(c: char) -> (res: bool)
    ensures
        res == is_ascii_alphanumeric(c),
{
    ('0' <= c && c <= '9') || ('A' <= c && c <= 'Z') || ('a' <= c && c <= 'z')
}

fn matches_at(hay: &Vec<char>, needle: &str, i: usize) -> (res: bool)
    requires
        i <= hay@.len(),
    ensures
        res == occurs_at(hay@, needle@, i as int),
{
    let m = needle.unicode_len();
    let len = hay.len();
    if m > len - i {
        return false;
    }
    let mut j: usize = 0;
    while j < m
        invariant
            m == needle@.len(),
            hay@.len() <= usize::MAX,
            i <= hay@.len(),
            i + m <= hay@.len(),
            j <= m,
            forall|k: int| 0 <= k < j ==> hay@[i + k] == needle@[k],
        decreases m - j,
    {
        assert(i + j < hay@.len());
        let at = i + j;
        if hay[at] != needle.get_char(j) {
            proof {
                assert(hay@.subrange(i as int, i + m)[j as int] == hay@[i + j]);
            }
            return false;
        }
        j = j + 1;
    }
    assert(hay@.subrange(i as int, i + m) =~= needle@);
    true
}

fn has_word(hay: &Vec<char>, w: &str) -> (res: bool)
    ensures
        res == is_word(hay@, w@),
{
    let n = hay.len();
    let m = w.unicode_len();
    let mut i: usize = 0;
    loop
        invariant
            n == hay@.len(),
            m == w@.len(),
            i <= n,
            forall|k: int|
                0 <= k < i ==> !(#[trigger] occurs_at(hay@, w@, k) && (k == 0 || !is_ascii_alphanumeric(
                    hay@[k - 1],
                )) && (k + m == n || !is_ascii_alphanumeric(hay@[k + m]))),
        ensures
            forall|k: int|
                0 <= k <= n ==> !(#[trigger] occurs_at(hay@, w@, k) && (k == 0 || !is_ascii_alphanumeric(
                    hay@[k - 1],
                )) && (k + m == n || !is_ascii_alphanumeric(hay@[k + m]))),
        decreases n - i,
    {
        if matches_at(hay, w, i) {
            let before_ok = i == 0 || !alphanumeric(hay[i - 1]);
            let after_ok = i + m == n || !alphanumeric(hay[i + m]);
            if before_ok && after_ok {
                return true;
            }
        }
        if i == n {
            break;
        }
        i = i + 1;
    }
    proof {
        assert forall|k: int|
            !(#[trigger] occurs_at(hay@, w@, k) && (k == 0 || !is_ascii_alphanumeric(hay@[k - 1])) && (k
                + m == n || !is_ascii_alphanumeric(hay@[k + m]))) by {
            if 0 <= k <= n {
            }
        }
    }
    false
}

fn has_text(hay: &Vec<char>, needle: &str) -> (res: bool)
    ensures
        res == crate::text::contains_text(hay@, needle@),
{
    let n = hay.len();
    let mut i: usize = 0;
    loop
        invariant
            n == hay@.len(),
            i <= n,
            forall|k: int| 0 <= k < i ==> !#[trigger] occurs_at(hay@, needle@, k),
        ensures
            forall|k: int| 0 <= k <= n ==> !#[trigger] occurs_at(hay@, needle@, k),
        decreases n - i,
    {
        if matches_at(hay, needle, i) {
            return true;
        }
        if i == n {
            break;
        }
        i = i + 1;
    }
    proof {
        assert forall|k: int| !occurs_at(hay@, needle@, k) by {
            if 0 <= k <= n {
            }
        }
    }
    false
}

/// `up` is `key` with its ASCII lower-case letters in upper case.
pub open spec fn upper_case_of(key: Seq<char>, up: Seq<char>) -> bool {
    &&& up.len() == key.len()
    &&& forall|i: int|
        0 <= i < key.len() ==> #[trigger] up[i] == if 'a' <= key[i] && key[i] <= 'z' {
            ((key[i] as int) - 32) as char
        } else {
            key[i]
        }
}

proof fn lemma_upper_case_of(key: Seq<char>, up: Seq<char>)
    requires
        upper_case_of(key, up),
    ensures
        up == key.map_values(|c: char| ascii_upper(c)),
{
    assert(up =~= key.map_values(|c: char| ascii_upper(c)));
}

/// A key is sensitive when its upper-case form contains `API_KEY`,
/// `ACCESS_KEY`, `PRIVATE_KEY`, `CLIENT_SECRET`, `DATABASE_URL`, `DB_URL`,
/// `CONNECTION_STRING`, `AUTH_KEY` or `AUTH_TOKEN` anywhere (so
/// `AWS_ACCESS_KEY_ID` is sensitive).
pub proof fn law_compound_keys_are_sensitive(key: Seq<char>, up: Seq<char>, marker: Seq<char>, at: int)
    requires
        upper_case_of(key, up),
        marker == "API_KEY"@ || marker == "ACCESS_KEY"@ || marker == "PRIVATE_KEY"@ || marker
            == "CLIENT_SECRET"@ || marker == "DATABASE_URL"@ || marker == "DB_URL"@ || marker
            == "CONNECTION_STRING"@ || marker == "AUTH_KEY"@ || marker == "AUTH_TOKEN"@,
        0 <= at,
        at + marker.len() <= up.len(),
        up.subrange(at, at + marker.len()) == marker,
    ensures
        sensitive(key),
{
    lemma_upper_case_of(key, up);
    let n = key.map_values(|c: char| ascii_upper(c));
    assert(crate::text::occurs_at(n, marker, at));
    let k: int = if marker == "API_KEY"@ {
        0
    } else if marker == "ACCESS_KEY"@ {
        1
    } else if marker == "PRIVATE_KEY"@ {
        2
    } else if marker == "CLIENT_SECRET"@ {
        3
    } else if marker == "DATABASE_URL"@ {
        4
    } else if marker == "DB_URL"@ {
        5
    } else if marker == "CONNECTION_STRING"@ {
        6
    } else if marker == "AUTH_KEY"@ {
        7
    } else {
        8
    };
    assert(sensitive_compounds()[k] == marker);
    assert(crate::text::contains_text(n, sensitive_compounds()[k]));
}

/// A key is sensitive when its upper-case form has `SECRET`, `TOKEN`,
/// `PASSWORD`, `PASSWD`, `PWD`, `CREDENTIAL` or `CREDENTIALS` as a whole
/// word: at the start or after a character that is not an ASCII letter or
/// digit, and at the end or before such a character.
pub proof fn law_word_keys_are_sensitive(key: Seq<char>, up: Seq<char>, word: Seq<char>, at: int)
    requires
        upper_case_of(key, up),
        word == "SECRET"@ || word == "TOKEN"@ || word == "PASSWORD"@ || word == "PASSWD"@ || word
            == "PWD"@ || word == "CREDENTIAL"@ || word == "CREDENTIALS"@,
        0 <= at,
        at + word.len() <= up.len(),
        up.subrange(at, at + word.len()) == word,
        at == 0 || !(('0' <= up[at - 1] && up[at - 1] <= '9') || ('A' <= up[at - 1] && up[at - 1] <= 'Z')
            || ('a' <= up[at - 1] && up[at - 1] <= 'z')),
        at + word.len() == up.len() || !(('0' <= up[at + word.len()] && up[at + word.len()] <= '9') || (
        'A' <= up[at + word.len()] && up[at + word.len()] <= 'Z') || ('a' <= up[at + word.len()]
            && up[at + word.len()] <= 'z')),
    ensures
        sensitive(key),
{
    lemma_upper_case_of(key, up);
    let n = key.map_values(|c: char| ascii_upper(c));
    assert(crate::text::occurs_at(n, word, at));
    let k: int = if word == "SECRET"@ {
        0
    } else if word == "TOKEN"@ {
        1
    } else if word == "PASSWORD"@ {
        2
    } else if word == "PASSWD"@ {
        3
    } else if word == "PWD"@ {
        4
    } else if word == "CREDENTIAL"@ {
        5
    } else {
        6
    };
    assert(sensitive_words()[k] == word);
    assert(is_word(n, sensitive_words()[k]));
}

/// Whether a variable name looks like it holds a secret.
pub fn is_sensitive_key(key: &str) -> (res: bool)
    ensures
        res == sensitive(key@),
{
    let normalized = upper_chars(key);
    let words: Vec<&str> = vec!["SECRET", "TOKEN", "PASSWORD", "PASSWD", "PWD", "CREDENTIAL", "CREDENTIALS"];
    let compounds: Vec<&str> = vec![
        "API_KEY",
        "ACCESS_KEY",
        "PRIVATE_KEY",
        "CLIENT_SECRET",
        "DATABASE_URL",
        "DB_URL",
        "CONNECTION_STRING",
        "AUTH_KEY",
        "AUTH_TOKEN",
    ];
    proof {
        assert(words@.map_values(|w: &str| w@) =~= sensitive_words());
        assert(compounds@.map_values(|w: &str| w@) =~= sensitive_compounds());
    }
    let mut k: usize = 0;
    while k < words.len()
        invariant
            k <= words@.len(),
            words@.map_values(|w: &str| w@) == sensitive_words(),
            normalized@ == key@.map_values(|c: char| ascii_upper(c)),
            forall|j: int| 0 <= j < k ==> !is_word(normalized@, #[trigger] sensitive_words()[j]),
        decreases words@.len() - k,
    {
        assert(words@[k as int]@ == sensitive_words()[k as int]);
        if has_word(&normalized, words[k]) {
            return true;
        }
        k = k + 1;
    }
    let mut k: usize = 0;
    while k < compounds.len()
        invariant
            k <= compounds@.len(),
            compounds@.map_values(|w: &str| w@) == sensitive_compounds(),
            normalized@ == key@.map_values(|c: char| ascii_upper(c)),
            forall|j: int| 0 <= j < sensitive_words().len() ==> !is_word(normalized@, #[trigger] sensitive_words()[j]),
            forall|j: int| 0 <= j < k ==> !crate::text::contains_text(normalized@, #[trigger] sensitive_compounds()[j]),
        decreases compounds@.len() - k,
    {
        assert(compounds@[k as int]@ == sensitive_compounds()[k as int]);
        if has_text(&normalized, compounds[k]) {
            return true;
        }
        k = k + 1;
    }
    false
}

/// How many of the entries have a sensitive-looking key.
pub open spec fn sensitive_count(entries: Seq<SecretInput>) -> nat
    decreases entries.len(),
{
    if entries.len() == 0 {
        0
    } else {
        sensitive_count(entries.drop_last()) + if sensitive(entries.last().key@) {
            1nat
        } else {
            0nat
        }
    }
}

proof fn lemma_sensitive_count_bound(entries: Seq<SecretInput>)
    ensures
        sensitive_count(entries) <= entries.len(),
    decreases entries.len(),
{
    if entries.len() > 0 {
        lemma_sensitive_count_bound(entries.drop_last());
    }
}

/// The number of entries whose key looks sensitive, and the number whose
/// key does not.
pub fn classify_entries(entries: &[SecretInput]) -> (res: (usize, usize))
    ensures
        res.0 == sensitive_count(entries@),
        res.0 + res.1 == entries@.len(),
{
    let mut sensitive_entries: usize = 0;
    let mut i: usize = 0;
    while i < entries.len()
        invariant
            i <= entries@.len(),
            sensitive_entries == sensitive_count(entries@.take(i as int)),
            sensitive_entries <= i,
        decreases entries@.len() - i,
    {
        proof {
            assert(entries@.take(i + 1).drop_last() =~= entries@.take(i as int));
            assert(entries@.take(i + 1).last() == entries@[i as int]);
        }
        if is_sensitive_key(entries[i].key.as_str()) {
            sensitive_entries = sensitive_entries + 1;
        }
        i = i + 1;
    }
    assert(entries@.take(entries@.len() as int) =~= entries@);
    (sensitive_entries, entries.len() - sensitive_entries)
}

/// The three lines shown after reading `.env`.
pub open spec fn detection_summary(total: nat, sensitive_entries: nat, others: nat) -> Seq<char> {
    counted(total, " variable detected"@, " variables detected"@) + "\n"@ + counted(
        sensitive_entries,
        " appears sensitive"@,
        " appear sensitive"@,
    ) + "\n"@ + counted(others, " appears non-sensitive"@, " appear non-sensitive"@)
}

/// `3 variables detected`, `1 appears sensitive`, `2 appear non-sensitive`,
/// one per line.
pub fn render_detection_summary(total: usize, sensitive_entries: usize, non_sensitive: usize) -> (res:
    String)
    ensures
        res@ == detection_summary(total as nat, sensitive_entries as nat, non_sensitive as nat),
{
    let mut res = counted_text(total, " variable detected", " variables detected");
    res.append("\n");
    let middle = counted_text(sensitive_entries, " appears sensitive", " appear sensitive");
    res.append(middle.as_str());
    res.append("\n");
    let last = counted_text(non_sensitive, " appears non-sensitive", " appear non-sensitive");
    res.append(last.as_str());
    res
}

/// A message made a sentence: its first character in ASCII upper case and
/// a final `.` added when missing.
pub open spec fn as_sentence(message: Seq<char>) -> Seq<char> {
    let m = if message.len() > 0 {
        message.update(0, ascii_upper(message[0]))
    } else {
        message
    };
    if m.len() > 0 && m.last() == '.' {
        m
    } else {
        m.push('.')
    }
}

/// `message` turned into a sentence.
pub fn sentence(message: &str) -> (res: String)
    ensures
        res@ == as_sentence(message@),
{
    let n = message.unicode_len();
    let mut chars: Vec<char> = Vec::new();
    let mut i: usize = 0;
    while i < n
        invariant
            n == message@.len(),
            i <= n,
            chars@.len() == i,
            forall|k: int| 0 <= k < i ==> #[trigger] chars@[k] == if k == 0 {
                ascii_upper(message@[0])
            } else {
                message@[k]
            },
        decreases n - i,
    {
        let c = message.get_char(i);
        if i == 0 && 'a' <= c && c <= 'z' {
            chars.push(((c as u32) - 32) as u8 as char);
        } else {
            chars.push(c);
        }
        i = i + 1;
    }
    let ghost m = if n > 0 {
        message@.update(0, ascii_upper(message@[0]))
    } else {
        message@
    };
    assert(chars@ =~= m);
    if n == 0 || chars[n - 1] != '.' {
        chars.push('.');
    }
    crate::text::string_from_chars(&chars)
}

/// A project and environment name written `PROJECT_NAME/ENVIRONMENT_NAME`:
/// one `/` with a non-empty name on each side.
pub open spec fn target_parts(raw: Seq<char>) -> Option<(Seq<char>, Seq<char>)> {
    if exists|i: int| 0 < i < raw.len() - 1 && raw[i] == '/' && forall|k: int| 0 <= k < raw.len() && k != i ==> raw[k] != '/' {
        let i = choose|i: int| 0 < i < raw.len() - 1 && raw[i] == '/' && forall|k: int| 0 <= k < raw.len() && k != i ==> raw[k] != '/';
        Some((raw.subrange(0, i), raw.subrange(i + 1, raw.len() as int)))
    } else {
        None
    }
}

/// The message for a target that is not `PROJECT_NAME/ENVIRONMENT_NAME`.
pub open spec fn target_format_message() -> Seq<char> {
    "expected PROJECT_NAME/ENVIRONMENT_NAME"@
}

/// Splits `PROJECT_NAME/ENVIRONMENT_NAME` into its two names.
pub fn parse_init(raw: &str) -> (res: Result<(String, String), String>)
    ensures
        match target_parts(raw@) {
            Some(parts) => res matches Ok(p) && p.0@ == parts.0 && p.1@ == parts.1,
            None => res matches Err(m) && m@ == target_format_message(),
        },
{
    proof {
        reveal_strlit("expected PROJECT_NAME/ENVIRONMENT_NAME");
    }
    let n = raw.unicode_len();
    let mut slash: Option<usize> = None;
    let mut count: usize = 0;
    let mut i: usize = 0;
    while i < n
        invariant
            n == raw@.len(),
            i <= n,
            count <= 2,
            count == 0 ==> slash is None && forall|k: int| 0 <= k < i ==> raw@[k] != '/',
            count == 1 ==> (slash matches Some(p) && p < i && raw@[p as int] == '/' && forall|k: int|
                0 <= k < i && k != p ==> raw@[k] != '/'),
            count == 2 ==> exists|a: int, b: int| 0 <= a < b < n && raw@[a] == '/' && raw@[b] == '/',
        decreases n - i,
    {
        if raw.get_char(i) == '/' {
            if count == 0 {
                slash = Some(i);
                count = 1;
            } else if count == 1 {
                proof {
                    let p = slash->0;
                    assert(raw@[p as int] == '/' && raw@[i as int] == '/');
                }
                count = 2;
            }
        }
        i = i + 1;
    }
    if count == 1 {
        let p = match slash {
            Some(p) => p,
            None => 0,
        };
        if 0 < p && p + 1 < n {
            proof {
                let c = choose|c: int| 0 < c < raw@.len() - 1 && raw@[c] == '/' && forall|k: int| 0 <= k < raw@.len() && k != c ==> raw@[k] != '/';
                assert(c == p) by {
                    if c != p {
                        assert(raw@[p as int] != '/');
                    }
                }
            }
            let project = raw.substring_char(0, p).to_owned();
            let environment = raw.substring_char(p + 1, n).to_owned();
            return Ok((project, environment));
        }
    }
    proof {
        if exists|c: int| 0 < c < raw@.len() - 1 && raw@[c] == '/' && forall|k: int| 0 <= k < raw@.len() && k != c ==> raw@[k] != '/' {
            let c = choose|c: int| 0 < c < raw@.len() - 1 && raw@[c] == '/' && forall|k: int| 0 <= k < raw@.len() && k != c ==> raw@[k] != '/';
            if count == 0 {
                assert(raw@[c] == '/');
            } else if count == 2 {
                let (a, b) = choose|a: int, b: int| 0 <= a < b < n && raw@[a] == '/' && raw@[b] == '/';
                assert(a == c);
                assert(b == c);
            } else {
                assert(slash == Some(c as usize));
            }
        }
    }
    Err("expected PROJECT_NAME/ENVIRONMENT_NAME".to_owned())
}

/// The message for a project name that is already taken.
pub open spec fn project_exists(project: Seq<char>) -> Seq<char> {
    "Project "@ + project + " already exists. Enter a different project name."@
}

/// `Project NAME already exists. Enter a different project name.`
pub fn project_exists_message(project: &str) -> (res: String)
    ensures
        res@ == project_exists(project@),
{
    let mut res = "Project ".to_owned();
    res.append(project);
    res.append(" already exists. Enter a different project name.");
    res
}

/// The verdict on a typed target: its two names, or the message refusing
/// it (the parse error as a sentence, or the taken project).
pub open spec fn target_verdict(raw: Seq<char>, existing: Seq<String>) -> Result<(Seq<char>, Seq<char>), Seq<char>> {
    match target_parts(raw) {
        None => Err(as_sentence(target_format_message())),
        Some(parts) => if exists|k: int| 0 <= k < existing.len() && (#[trigger] existing[k])@ == parts.0 {
            Err(project_exists(parts.0))
        } else {
            Ok(parts)
        },
    }
}

/// A typed `PROJECT_NAME/ENVIRONMENT_NAME` for the interactive import: its
/// names when well formed and the project is not among `existing`; the
/// parse error as a sentence, or the taken project, otherwise.
pub fn validate_interactive_target(raw: &str, existing: &Vec<String>) -> (res: Result<
    (String, String),
    String,
>)
    ensures
        match target_verdict(raw@, existing@) {
            Ok(parts) => res matches Ok(p) && p.0@ == parts.0 && p.1@ == parts.1,
            Err(m) => res matches Err(e) && e@ == m,
        },
{
    let (project, environment) = match parse_init(raw) {
        Ok(parts) => parts,
        Err(error) => {
            return Err(sentence(error.as_str()));
        },
    };
    let mut k: usize = 0;
    while k < existing.len()
        invariant
            k <= existing@.len(),
            target_parts(raw@) == Some((project@, environment@)),
            forall|j: int| 0 <= j < k ==> (#[trigger] existing@[j])@ != project@,
        decreases existing@.len() - k,
    {
        if same_text(existing[k].as_str(), project.as_str()) {
            assert(existing@[k as int]@ == project@);
            return Err(project_exists_message(project.as_str()));
        }
        k = k + 1;
    }
    Ok((project, environment))
}

/// What became of `.env` after a successful import.
#[derive(Clone, Copy, Debug, PartialEq, Eq, Structural)]
pub enum EnvCleanup {
    Deleted,
    Missing,
    Changed,
}

/// `.env` is deleted only when it still holds what was imported: gone means
/// `Missing`, different bytes mean `Changed`, otherwise it is deleted.
pub fn env_cleanup(current: Option<&[u8]>, expected: &[u8]) -> (res: EnvCleanup)
    ensures
        current is None ==> res == EnvCleanup::Missing,
        current matches Some(c) ==> (c@ != expected@ ==> res == EnvCleanup::Changed),
        current matches Some(c) ==> (c@ == expected@ ==> res == EnvCleanup::Deleted),
{
    match current {
        None => EnvCleanup::Missing,
        Some(c) => {
            if c.len() != expected.len() {
                return EnvCleanup::Changed;
            }
            let mut i: usize = 0;
            while i < c.len()
                invariant
                    current == Some(c),
                    c@.len() == expected@.len(),
                    i <= c@.len(),
                    forall|k: int| 0 <= k < i ==> c@[k] == expected@[k],
                decreases c@.len() - i,
            {
                if c[i] != expected[i] {
                    return EnvCleanup::Changed;
                }
                i = i + 1;
            }
            assert(c@ =~= expected@);
            EnvCleanup::Deleted
        },
    }
}

/// What is printed about `.env` after the clean-up.
pub fn cleanup_message(cleanup: EnvCleanup) -> (res: &'static str)
    ensures
        cleanup == EnvCleanup::Deleted ==> res@ == "✓ .env deleted."@,
        cleanup == EnvCleanup::Missing ==> res@ == ".env was already removed."@,
        cleanup == EnvCleanup::Changed ==> res@
            == "Import succeeded, but .env changed after it was read and was not deleted."@,
{
    match cleanup {
        EnvCleanup::Deleted => "✓ .env deleted.",
        EnvCleanup::Missing => ".env was already removed.",
        EnvCleanup::Changed => "Import succeeded, but .env changed after it was read and was not deleted.",
    }
}

/// `✓ Imported 3 variables into project/environment.`
pub fn import_summary(imported: u64, project: &str, environment: &str) -> (res: String)
    ensures
        res@ == "✓ Imported "@ + decimal(imported as nat) + (if imported == 1 {
            " variable"@
        } else {
            " variables"@
        }) + " into "@ + project@ + "/"@ + environment@ + "."@,
{
    let mut res = "✓ Imported ".to_owned();
    let count = u64_to_string(imported);
    res.append(count.as_str());
    if imported == 1 {
        res.append(" variable");
    } else {
        res.append(" variables");
    }
    res.append(" into ");
    res.append(project);
    res.append("/");
    res.append(environment);
    res.append(".");
    res
}

/// The hint printed at the end of an interactive import.
pub fn run_hint(project: &str, environment: &str) -> (res: String)
    ensures
        res@ == "\nRun your application with:\n\n  dopbase run "@ + project@ + "/"@ + environment@
            + " -- <your-command>"@,
{
    let mut res = "\nRun your application with:\n\n  dopbase run ".to_owned();
    res.append(project);
    res.append("/");
    res.append(environment);
    res.append(" -- <your-command>");
    res
}


/// Interactive init prints for a person on a terminal: JSON output and a
/// missing terminal are refused.
pub fn check_interactive_init(json_output: bool, interactive: bool) -> (res: Result<(), String>)
    ensures
        json_output ==> (res matches Err(m) && m@
            == "interactive init does not support --json. Pass PROJECT_NAME/ENVIRONMENT_NAME and --from for machine-readable output"@),
        !json_output && !interactive ==> (res matches Err(m) && m@
            == "interactive init requires a terminal. Pass PROJECT_NAME/ENVIRONMENT_NAME and --from for non-interactive use"@),
        !json_output && interactive ==> res is Ok,
{
    if json_output {
        return Err(
            "interactive init does not support --json. Pass PROJECT_NAME/ENVIRONMENT_NAME and --from for machine-readable output".to_owned(),
        );
    }
    if !interactive {
        return Err(
            "interactive init requires a terminal. Pass PROJECT_NAME/ENVIRONMENT_NAME and --from for non-interactive use".to_owned(),
        );
    }
    Ok(())
}

/// `Initialized project/environment.`
pub fn initialized_message(project: &str, environment: &str) -> (res: String)
    ensures
        res@ == "Initialized "@ + project@ + "/"@ + environment@ + "."@,
{
    let mut res = "Initialized ".to_owned();
    res.append(project);
    res.append("/");
    res.append(environment);
    res.append(".");
    res
}


/// After the server refused `project` as taken, it joins the known names
/// and the warning to show is returned.
pub fn record_taken_project(existing: &mut Vec<String>, project: String) -> (res: String)
    ensures
        final(existing)@ == old(existing)@.push(project),
        res@ == project_exists(project@),
{
    let message = project_exists_message(project.as_str());
    existing.push(project);
    message
}

/// A project the server refused once is refused by every later typed
/// target that names it, before any request is made.
pub proof fn law_taken_project_stays_refused(existing: Seq<String>, project: String, raw: Seq<char>)
    requires
        target_parts(raw) matches Some(parts) && parts.0 == project@,
    ensures
        target_verdict(raw, existing.push(project)) == Err::<(Seq<char>, Seq<char>), Seq<char>>(
            project_exists(project@),
        ),
{
    assert(existing.push(project)[existing.len() as int] == project);
}

} // verus!
