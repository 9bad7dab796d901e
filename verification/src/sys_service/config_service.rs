//! The configuration file rules: the content hash a client must present, the
//! conflict check of an update, and the replacement of one section of the
//! TOML document.
use sha2::Digest;
use vstd::prelude::*;
use vstd::string::{StrSliceExecFns, StringExecFns, StringSliceAdditionalSpecFns};

verus! {

/// The SHA-256 digest of a byte string, as the sha2 crate computes it.
pub uninterp spec fn sha256_digest(data: Seq<u8>) -> Seq<u8>;

/// Hashes with sha2's `Sha256::digest`. Claims that the digest is the name
/// `sha256_digest` of the input and is 32 bytes long, as the crate's output
/// size states.
#[verifier::external_body]
fn sha256(data: &[u8]) -> (r: Vec<u8>)
    ensures
        r@ == sha256_digest(data@),
        r@.len() == 32,
{
    sha2::Sha256::digest(data).to_vec()
}

/// Whether toml_edit parses a text as a document.
pub uninterp spec fn toml_parses(text: Seq<char>) -> bool;

/// The text toml_edit writes for a document after the table `key` has been
/// set to the document parsed from `value` (replacing it, or appending it if
/// absent).
pub uninterp spec fn toml_with_table(doc: Seq<char>, key: Seq<char>, value: Seq<char>) -> Seq<char>;

/// Parses a text with toml_edit's `DocumentMut::from_str`. Claims that it
/// succeeds exactly when the name `toml_parses` holds of the text; the error
/// message is toml_edit's and nothing is said of it.
#[verifier::external_body]
fn toml_check(text: &str) -> (r: Result<(), String>)
    ensures
        r is Ok <==> toml_parses(text@),
{
    match text.parse::<toml_edit::DocumentMut>() {
        Ok(_) => Ok(()),
        Err(e) => Err(e.to_string()),
    }
}

/// Sets a table of a TOML document with toml_edit: the document text and the
/// value text are parsed into `DocumentMut`s, `doc[key]` is assigned the
/// value's root item, and the document is written back with `to_string`.
/// Claims that the text is the name `toml_with_table` of the three inputs.
#[verifier::external_body]
fn toml_set_table(doc: &str, key: &str, value: &str) -> (r: String)
    requires
        toml_parses(doc@),
        toml_parses(value@),
    ensures
        r@ == toml_with_table(doc@, key@, value@),
{
    let mut d = doc.parse::<toml_edit::DocumentMut>().unwrap();
    let v = value.parse::<toml_edit::DocumentMut>().unwrap();
    d[key] = v.as_item().clone();
    d.to_string()
}

pub open spec fn hex_digit(d: nat) -> char {
    if d < 10 {
        crate::text::digit_char(d)
    } else if d == 10 {
        'a'
    } else if d == 11 {
        'b'
    } else if d == 12 {
        'c'
    } else if d == 13 {
        'd'
    } else if d == 14 {
        'e'
    } else {
        'f'
    }
}

/// Lower-case hexadecimal, two digits per byte.
pub open spec fn hex_lower(bytes: Seq<u8>) -> Seq<char>
    decreases bytes.len(),
{
    if bytes.len() == 0 {
        Seq::empty()
    } else {
        hex_lower(bytes.drop_last()) + seq![hex_digit((bytes.last() / 16) as nat), hex_digit((bytes.last() % 16) as nat)]
    }
}

fn hex_digit_str(d: u8) -> (r: &'static str)
    requires
        d < 16,
    ensures
        r@ == seq![hex_digit(d as nat)],
{
    proof {
        reveal_strlit("0");
        reveal_strlit("1");
        reveal_strlit("2");
        reveal_strlit("3");
        reveal_strlit("4");
        reveal_strlit("5");
        reveal_strlit("6");
        reveal_strlit("7");
        reveal_strlit("8");
        reveal_strlit("9");
        reveal_strlit("a");
        reveal_strlit("b");
        reveal_strlit("c");
        reveal_strlit("d");
        reveal_strlit("e");
        reveal_strlit("f");
    }
    if d == 0 {
        "0"
    } else if d == 1 {
        "1"
    } else if d == 2 {
        "2"
    } else if d == 3 {
        "3"
    } else if d == 4 {
        "4"
    } else if d == 5 {
        "5"
    } else if d == 6 {
        "6"
    } else if d == 7 {
        "7"
    } else if d == 8 {
        "8"
    } else if d == 9 {
        "9"
    } else if d == 10 {
        "a"
    } else if d == 11 {
        "b"
    } else if d == 12 {
        "c"
    } else if d == 13 {
        "d"
    } else if d == 14 {
        "e"
    } else {
        "f"
    }
}

/// Lower-case hexadecimal text of a byte string.
pub fn to_hex_lower(bytes: &Vec<u8>) -> (r: String)
    ensures
        r@ == hex_lower(bytes@),
{
    let mut s = String::new();
    let mut i: usize = 0;
    while i < bytes.len()
        invariant
            i <= bytes.len(),
            s@ == hex_lower(bytes@.take(i as int)),
        decreases bytes.len() - i,
    {
        let b = bytes[i];
        proof {
            assert(bytes@.take(i + 1).drop_last() =~= bytes@.take(i as int));
            assert(bytes@.take(i + 1).last() == b);
        }
        s.append(hex_digit_str(b / 16));
        s.append(hex_digit_str(b % 16));
        proof {
            assert(s@ =~= hex_lower(bytes@.take(i + 1)));
        }
        i = i + 1;
    }
    assert(bytes@.take(bytes.len() as int) =~= bytes@);
    s
}

/// The hash of a configuration text: the lower-case hex SHA-256 of its UTF-8
/// bytes.
pub open spec fn config_hash(content: &str) -> Seq<char> {
    hex_lower(sha256_digest(content.spec_bytes()))
}

/// Computes the hash of a configuration text.
pub fn content_hash(content: &str) -> (r: String)
    ensures
        r@ == config_hash(content),
        r@.len() == 64,
{
    let digest = sha256(content.as_bytes());
    let r = to_hex_lower(&digest);
    proof {
        lemma_hex_lower_len(digest@);
    }
    r
}

proof fn lemma_hex_lower_len(b: Seq<u8>)
    ensures
        hex_lower(b).len() == 2 * b.len(),
    decreases b.len(),
{
    if b.len() > 0 {
        lemma_hex_lower_len(b.drop_last());
    }
}

/// Why a configuration update was refused.
pub enum ConfigUpdateError {
    /// The file changed since the client read it: its hash is not the one the
    /// client presented.
    ConfigConflict,
    /// The file or the new section is not a TOML document; toml_edit's message.
    ConfigError(String),
}

fn str_eq(a: &str, b: &str) -> (r: bool)
    ensures
        r == (a@ == b@),
{
    let n = a.unicode_len();
    if n != b.unicode_len() {
        return false;
    }
    let mut i: usize = 0;
    while i < n
        invariant
            n == a@.len(),
            n == b@.len(),
            i <= n,
            forall|j: int| 0 <= j < i ==> a@[j] == b@[j],
        decreases n - i,
    {
        if a.get_char(i) != b.get_char(i) {
            return false;
        }
        i = i + 1;
    }
    assert(a@ =~= b@);
    true
}

/// Updates one section of the configuration file, with optimistic locking.
///
/// `section_toml` is the new section as the serializer wrote it, or the
/// serializer's error. In the order the checks are made: the update is
/// refused as a conflict when the current content's hash is not the one
/// expected; as a configuration error when the current content is not a TOML
/// document, when the serializer failed (its message) or when the new section
/// is not a TOML document; otherwise the new content is the document with the
/// section table replaced.
pub fn update_config_section(current: &str, expected_hash: &str, section: &str, section_toml: Result<&str, &str>) -> (r:
    Result<String, ConfigUpdateError>)
    ensures
        config_hash(current) != expected_hash@ ==> r matches Err(ConfigUpdateError::ConfigConflict),
        config_hash(current) == expected_hash@ && !toml_parses(current@) ==> r matches Err(ConfigUpdateError::ConfigError(_)),
        config_hash(current) == expected_hash@ && toml_parses(current@) ==> match section_toml {
            Err(e) => r matches Err(ConfigUpdateError::ConfigError(m)) && m@ == e@,
            Ok(t) => if toml_parses(t@) {
                r matches Ok(text) && text@ == toml_with_table(current@, section@, t@)
            } else {
                r matches Err(ConfigUpdateError::ConfigError(_))
            },
        },
{
    let current_hash = content_hash(current);
    if !str_eq(current_hash.as_str(), expected_hash) {
        return Err(ConfigUpdateError::ConfigConflict);
    }
    match toml_check(current) {
        Ok(()) => {},
        Err(e) => {
            return Err(ConfigUpdateError::ConfigError(e));
        },
    }
    let t = match section_toml {
        Ok(t) => t,
        Err(e) => {
            return Err(ConfigUpdateError::ConfigError(e.to_string()));
        },
    };
    match toml_check(t) {
        Ok(()) => {},
        Err(e) => {
            return Err(ConfigUpdateError::ConfigError(e));
        },
    }
    Ok(toml_set_table(current, section, t))
}

} // verus!
