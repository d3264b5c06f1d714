//! JSON headers of the wire protocol.

use crate::error::{Result, SidecarError};
use crate::text::{decimal, opt_text, same_text};
use vstd::prelude::*;
use vstd::string::*;
use vstd::utf8::{encode_utf8, encode_utf8_decode_utf8};

verus! {

/// A member of a JSON object: its name, and its value where that is a string.
pub struct HeaderField {
    pub name: String,
    pub text: Option<String>,
}

/// The names and strings of the members.
pub open spec fn field_views(fields: Seq<HeaderField>) -> Seq<(Seq<char>, Option<Seq<char>>)> {
    fields.map_values(|field: HeaderField| (field.name@, opt_text(field.text)))
}

/// The member of that name: `None` where there is none, else its value where that is a string.
pub open spec fn lookup(
    fields: Seq<(Seq<char>, Option<Seq<char>>)>,
    name: Seq<char>,
) -> Option<Option<Seq<char>>>
    decreases fields.len(),
{
    if fields.len() == 0 {
        None
    } else if fields[0].0 == name {
        Some(fields[0].1)
    } else {
        lookup(fields.drop_first(), name)
    }
}

/// The position of the member of that name.
fn find_field(fields: &Vec<HeaderField>, name: &str) -> (r: Option<usize>)
    ensures
        r is None ==> lookup(field_views(fields@), name@) is None,
        r matches Some(i) ==> i < fields@.len() && lookup(field_views(fields@), name@) == Some(
            opt_text(fields@[i as int].text),
        ),
{
    let ghost views = field_views(fields@);
    proof {
        assert(views.skip(0) =~= views);
    }
    let mut i: usize = 0;
    while i < fields.len()
        invariant
            i <= fields@.len(),
            views == field_views(fields@),
            lookup(views, name@) == lookup(views.skip(i as int), name@),
        decreases fields.len() - i,
    {
        proof {
            assert(views.skip(i as int)[0] == (fields@[i as int].name@, opt_text(
                fields@[i as int].text,
            )));
            assert(views.skip(i as int).drop_first() =~= views.skip(i + 1));
        }
        if same_text(fields[i].name.as_str(), name) {
            return Some(i);
        }
        i += 1;
    }
    None
}

/// Whether there is a member of that name.
pub fn has_field(fields: &Vec<HeaderField>, name: &str) -> (r: bool)
    ensures
        r == (lookup(field_views(fields@), name@) is Some),
{
    find_field(fields, name).is_some()
}

/// The string of a member that is there and is a string.
pub open spec fn string_of(member: Option<Option<Seq<char>>>) -> Option<Seq<char>> {
    match member {
        Some(text) => text,
        None => None,
    }
}

/// The string of the member of that name, where it is there and is a string.
pub fn text_field(fields: &Vec<HeaderField>, name: &str) -> (r: Option<String>)
    ensures
        opt_text(r) == string_of(lookup(field_views(fields@), name@)),
{
    match find_field(fields, name) {
        Some(i) => match &fields[i].text {
            Some(text) => Some(text.clone()),
            None => None,
        },
        None => None,
    }
}

/// `serde_json::Error`.
#[verifier::external_type_specification]
#[verifier::external_body]
pub struct ExJsonError(serde_json::Error);

/// What the alternate debug format of an error of `serde_json` says.
pub uninterp spec fn json_error_text(error: serde_json::Error) -> Seq<char>;

/// The alternate debug format of `serde_json::Error`; the contract names the text.
#[verifier::external_body]
fn debug_text(error: &serde_json::Error) -> (r: String)
    ensures
        r@ == json_error_text(*error),
{
    format!("{error:#?}")
}

/// What `serde_json::from_slice` makes of bytes that are read as a `Value`: the members where it
/// is an object, `None` where it is another value; or, where the bytes are not JSON, the
/// alternate debug format of the error.
pub uninterp spec fn json_members(bytes: Seq<u8>) -> std::result::Result<
    Option<Seq<(Seq<char>, Option<Seq<char>>)>>,
    Seq<char>,
>;

/// The names and strings of members that were read, or the text of the error.
pub open spec fn members_or_error(
    read: std::result::Result<Option<Vec<HeaderField>>, serde_json::Error>,
) -> std::result::Result<Option<Seq<(Seq<char>, Option<Seq<char>>)>>, Seq<char>> {
    match read {
        Ok(Some(fields)) => Ok(Some(field_views(fields@))),
        Ok(None) => Ok(None),
        Err(error) => Err(json_error_text(error)),
    }
}

/// `serde_json::from_slice` into a `Value`, whose members are handed out where it is an object,
/// with `Value::as_str` of each. The contract names the outcome; it says nothing of which bytes
/// are JSON.
#[verifier::external_body]
fn parse_members(bytes: &[u8]) -> (r: std::result::Result<
    Option<Vec<HeaderField>>,
    serde_json::Error,
>)
    ensures
        json_members(bytes@) == members_or_error(r),
{
    match serde_json::from_slice::<serde_json::Value>(bytes)? {
        serde_json::Value::Object(members) => Ok(
            Some(
                members.into_iter().map(
                    |(name, value)| HeaderField { name, text: value.as_str().map(String::from) },
                ).collect(),
            ),
        ),
        _ => Ok(None),
    }
}

/// The header that bytes are: the members of a JSON object, none for any other JSON value; or,
/// where the bytes are not JSON, the text of the error.
pub open spec fn json_header(bytes: Seq<u8>) -> std::result::Result<
    Seq<(Seq<char>, Option<Seq<char>>)>,
    Seq<char>,
> {
    match json_members(bytes) {
        Ok(Some(fields)) => Ok(fields),
        Ok(None) => Ok(Seq::empty()),
        Err(text) => Err(text),
    }
}

impl From<serde_json::Error> for SidecarError {
    /// A JSON error with the debug format of the cause.
    fn from(error: serde_json::Error) -> (r: Self)
        ensures
            r matches SidecarError::Json(msg) && msg@ == json_error_text(error),
    {
        SidecarError::Json(debug_text(&error))
    }
}

impl vstd::std_specs::convert::FromSpecImpl<serde_json::Error> for SidecarError {
    open spec fn obeys_from_spec() -> bool {
        false
    }

    open spec fn from_spec(error: serde_json::Error) -> Self {
        arbitrary()
    }
}

/// Reads a header: the members of a JSON object, none for any other JSON value.
pub fn read_header(bytes: &[u8]) -> (r: Result<Vec<HeaderField>>)
    ensures
        match json_header(bytes@) {
            Ok(fields) => r matches Ok(read) && field_views(read@) == fields,
            Err(text) => r matches Err(SidecarError::Json(msg)) && msg@ == text,
        },
{
    match parse_members(bytes) {
        Ok(Some(fields)) => Ok(fields),
        Ok(None) => {
            let none: Vec<HeaderField> = Vec::new();
            proof {
                assert(field_views(none@) =~= Seq::empty());
            }
            Ok(none)
        },
        Err(error) => Err(SidecarError::from(error)),
    }
}

/// A value in a header that is written.
pub enum MemberValue {
    Flag(bool),
    Text(String),
    Numbers(Vec<u64>),
}

/// Whether a text stands in JSON as it is, without an escape: printable ASCII characters, and
/// neither the quote nor the backslash.
pub open spec fn is_plain(text: Seq<char>) -> bool {
    forall|i: int|
        0 <= i < text.len() ==> ' ' <= #[trigger] text[i] && text[i] <= '~' && text[i] != '"'
            && text[i] != '\\'
}

/// Whether one text stands before another in the order of their characters.
pub open spec fn precedes(a: Seq<char>, b: Seq<char>) -> bool {
    exists|i: int|
        0 <= i < b.len() && i <= a.len() && a.take(i) == #[trigger] b.take(i) && (i == a.len()
            || a[i] < b[i])
}

/// Numbers in decimal digits with commas between them.
pub open spec fn numbers_text(numbers: Seq<u64>) -> Seq<char>
    decreases numbers.len(),
{
    if numbers.len() == 0 {
        seq![]
    } else if numbers.len() == 1 {
        decimal(numbers[0] as nat)
    } else {
        numbers_text(numbers.drop_last()) + seq![','] + decimal(numbers.last() as nat)
    }
}

/// A text in quotes.
pub open spec fn quoted(text: Seq<char>) -> Seq<char> {
    seq!['"'] + text + seq!['"']
}

/// A value as JSON.
pub open spec fn value_text(value: MemberValue) -> Seq<char> {
    match value {
        MemberValue::Flag(flag) => if flag {
            "true"@
        } else {
            "false"@
        },
        MemberValue::Text(text) => quoted(text@),
        MemberValue::Numbers(numbers) => seq!['['] + numbers_text(numbers@) + seq![']'],
    }
}

/// A JSON object of two members, without spaces.
pub open spec fn pair_text(
    first: Seq<char>,
    a: Seq<char>,
    second: Seq<char>,
    b: Seq<char>,
) -> Seq<char> {
    seq!['{'] + quoted(first) + seq![':'] + a + seq![','] + quoted(second) + seq![':'] + b
        + seq!['}']
}

/// `to_string` of a `serde_json::Value` that is an object of two members. The contract claims
/// the compact form: members in the order of their names, without spaces, and strings as they
/// are. Names and strings that need an escape are left out.
#[verifier::external_body]
fn object_to_string(first: &str, a: MemberValue, second: &str, b: MemberValue) -> (r: String)
    requires
        is_plain(first@),
        is_plain(second@),
        precedes(first@, second@),
        a matches MemberValue::Text(text) ==> is_plain(text@),
        b matches MemberValue::Text(text) ==> is_plain(text@),
    ensures
        r@ == pair_text(first@, value_text(a), second@, value_text(b)),
{
    let convert = |value: MemberValue| match value {
        MemberValue::Flag(flag) => serde_json::Value::from(flag),
        MemberValue::Text(text) => serde_json::Value::from(text),
        MemberValue::Numbers(numbers) => serde_json::Value::from(numbers),
    };
    let members = [(first.to_string(), convert(a)), (second.to_string(), convert(b))];
    serde_json::Value::Object(serde_json::Map::from_iter(members)).to_string()
}

/// The bytes of the header that says whether a model is available and loaded.
pub open spec fn availability_header(available: bool, loaded: bool) -> Seq<u8> {
    encode_utf8(
        pair_text(
            "model_available"@,
            value_text(MemberValue::Flag(available)),
            "model_loaded"@,
            value_text(MemberValue::Flag(loaded)),
        ),
    )
}

/// The bytes of the header that says whether a model was saved and is loaded.
pub open spec fn saved_header(saved: bool, loaded: bool) -> Seq<u8> {
    encode_utf8(
        pair_text(
            "model_loaded"@,
            value_text(MemberValue::Flag(loaded)),
            "model_saved"@,
            value_text(MemberValue::Flag(saved)),
        ),
    )
}

/// The bytes of the header that goes with a detection buffer: its element type and shape.
pub open spec fn tensor_header() -> Seq<u8> {
    encode_utf8(
        pair_text(
            "dtype"@,
            quoted("float32"@),
            "shape"@,
            seq!['['] + numbers_text(seq![20u64, 6u64]) + seq![']'],
        ),
    )
}

/// The headers that answer model-management messages are different bytes.
pub proof fn lemma_headers_differ(loaded: bool)
    ensures
        saved_header(true, true) != availability_header(loaded, loaded),
        availability_header(true, true) != availability_header(false, false),
{
    reveal_strlit("model_available");
    reveal_strlit("model_loaded");
    reveal_strlit("model_saved");
    reveal_strlit("true");
    reveal_strlit("false");
    let (yes, no) = (value_text(MemberValue::Flag(true)), value_text(MemberValue::Flag(false)));
    let flag = value_text(MemberValue::Flag(loaded));
    let saved = pair_text("model_loaded"@, yes, "model_saved"@, yes);
    let answer = pair_text("model_available"@, flag, "model_loaded"@, flag);
    let available = pair_text("model_available"@, yes, "model_loaded"@, yes);
    let missing = pair_text("model_available"@, no, "model_loaded"@, no);
    assert(saved[8] == 'l' && answer[8] == 'a');
    assert(available[19] == 't' && missing[19] == 'f');
    encode_utf8_decode_utf8(saved);
    encode_utf8_decode_utf8(answer);
    encode_utf8_decode_utf8(available);
    encode_utf8_decode_utf8(missing);
}

/// The header that says whether a model is available and loaded.
pub fn write_availability_header(available: bool, loaded: bool) -> (r: Vec<u8>)
    ensures
        r@ == availability_header(available, loaded),
{
    proof {
        reveal_strlit("model_available");
        reveal_strlit("model_loaded");
        assert("model_available"@.take(6) =~= "model_loaded"@.take(6));
    }
    let text: String = object_to_string(
        "model_available",
        MemberValue::Flag(available),
        "model_loaded",
        MemberValue::Flag(loaded),
    );
    text.as_str().as_bytes_vec()
}

/// The header that says whether a model was saved and is loaded.
pub fn write_saved_header(saved: bool, loaded: bool) -> (r: Vec<u8>)
    ensures
        r@ == saved_header(saved, loaded),
{
    proof {
        reveal_strlit("model_loaded");
        reveal_strlit("model_saved");
        assert("model_loaded"@.take(6) =~= "model_saved"@.take(6));
    }
    let text: String = object_to_string(
        "model_loaded",
        MemberValue::Flag(loaded),
        "model_saved",
        MemberValue::Flag(saved),
    );
    text.as_str().as_bytes_vec()
}

/// The header that goes with a detection buffer.
pub fn write_tensor_header() -> (r: Vec<u8>)
    ensures
        r@ == tensor_header(),
{
    proof {
        reveal_strlit("dtype");
        reveal_strlit("shape");
        reveal_strlit("float32");
        assert("dtype"@.take(0) =~= "shape"@.take(0));
    }
    let shape: Vec<u64> = vec![20, 6];
    proof {
        assert(shape@ =~= seq![20u64, 6u64]);
    }
    let text: String = object_to_string(
        "dtype",
        MemberValue::Text("float32".to_owned()),
        "shape",
        MemberValue::Numbers(shape),
    );
    text.as_str().as_bytes_vec()
}

/// The member of a name is the first that has it, and there is none where no member has it.
pub proof fn lemma_lookup_finds_the_first(
    fields: Seq<(Seq<char>, Option<Seq<char>>)>,
    name: Seq<char>,
)
    ensures
        lookup(fields, name) is None <==> forall|i: int|
            0 <= i < fields.len() ==> (#[trigger] fields[i]).0 != name,
        forall|i: int|
            0 <= i < fields.len() && (#[trigger] fields[i]).0 == name && (forall|j: int|
                0 <= j < i ==> (#[trigger] fields[j]).0 != name) ==> lookup(fields, name) == Some(
                fields[i].1,
            ),
    decreases fields.len(),
{
    if fields.len() > 0 && fields[0].0 != name {
        let rest = fields.drop_first();
        lemma_lookup_finds_the_first(rest, name);
        assert(forall|i: int| 0 <= i < rest.len() ==> rest[i] == #[trigger] fields[i + 1]);
        assert forall|i: int|
            0 <= i < fields.len() && (#[trigger] fields[i]).0 == name && (forall|j: int|
                0 <= j < i ==> (#[trigger] fields[j]).0
                    != name) implies lookup(fields, name) == Some(fields[i].1) by {
            assert(rest[i - 1] == fields[i]);
            assert forall|j: int| 0 <= j < i - 1 implies (#[trigger] rest[j]).0 != name by {
                assert(rest[j] == fields[j + 1]);
            }
        }
        if lookup(rest, name) is None {
            assert forall|i: int| 0 <= i < fields.len() implies (
            #[trigger] fields[i]).0 != name by {
                if i > 0 {
                    assert(rest[i - 1] == fields[i]);
                }
            }
        } else if forall|i: int| 0 <= i < fields.len() ==> (#[trigger] fields[i]).0 != name {
            assert forall|i: int| 0 <= i < rest.len() implies (#[trigger] rest[i]).0 != name by {
                assert(rest[i] == fields[i + 1]);
            }
        }
    }
}

/// The headers that are sent, letter for letter.
pub proof fn lemma_headers_in_letters()
    ensures
        tensor_header() == encode_utf8("{\"dtype\":\"float32\",\"shape\":[20,6]}"@),
        availability_header(true, true) == encode_utf8(
            "{\"model_available\":true,\"model_loaded\":true}"@,
        ),
        availability_header(false, false) == encode_utf8(
            "{\"model_available\":false,\"model_loaded\":false}"@,
        ),
        saved_header(true, true) == encode_utf8("{\"model_loaded\":true,\"model_saved\":true}"@),
{
    reveal_strlit("dtype");
    reveal_strlit("shape");
    reveal_strlit("float32");
    reveal_strlit("model_available");
    reveal_strlit("model_loaded");
    reveal_strlit("model_saved");
    reveal_strlit("true");
    reveal_strlit("false");
    reveal_strlit("{\"dtype\":\"float32\",\"shape\":[20,6]}");
    reveal_strlit("{\"model_available\":true,\"model_loaded\":true}");
    reveal_strlit("{\"model_available\":false,\"model_loaded\":false}");
    reveal_strlit("{\"model_loaded\":true,\"model_saved\":true}");
    let (yes, no) = (value_text(MemberValue::Flag(true)), value_text(MemberValue::Flag(false)));
    assert(numbers_text(seq![20u64, 6u64]) =~= seq!['2', '0', ',', '6']) by {
        reveal_with_fuel(numbers_text, 2);
        reveal_with_fuel(decimal, 2);
        assert(seq![20u64, 6u64].drop_last() =~= seq![20u64]);
        assert(decimal(20) =~= seq!['2', '0']);
        assert(decimal(6) =~= seq!['6']);
    }
    assert(pair_text(
        "dtype"@,
        quoted("float32"@),
        "shape"@,
        seq!['['] + numbers_text(seq![20u64, 6u64]) + seq![']'],
    ) =~= "{\"dtype\":\"float32\",\"shape\":[20,6]}"@);
    assert(pair_text("model_available"@, yes, "model_loaded"@, yes)
        =~= "{\"model_available\":true,\"model_loaded\":true}"@);
    assert(pair_text("model_available"@, no, "model_loaded"@, no)
        =~= "{\"model_available\":false,\"model_loaded\":false}"@);
    assert(pair_text("model_loaded"@, yes, "model_saved"@, yes)
        =~= "{\"model_loaded\":true,\"model_saved\":true}"@);
}

/// The headers that answer model-management messages, letter for letter, for any two flags:
/// each flag stands behind its own name.
pub proof fn lemma_flags_in_letters(a: bool, b: bool)
    ensures
        availability_header(a, b) == encode_utf8(
            "{\"model_available\":"@ + if a {
                "true"@
            } else {
                "false"@
            } + ",\"model_loaded\":"@ + if b {
                "true"@
            } else {
                "false"@
            } + "}"@,
        ),
        saved_header(a, b) == encode_utf8(
            "{\"model_loaded\":"@ + if b {
                "true"@
            } else {
                "false"@
            } + ",\"model_saved\":"@ + if a {
                "true"@
            } else {
                "false"@
            } + "}"@,
        ),
{
    reveal_strlit("model_available");
    reveal_strlit("model_loaded");
    reveal_strlit("model_saved");
    reveal_strlit("{\"model_available\":");
    reveal_strlit(",\"model_loaded\":");
    reveal_strlit("{\"model_loaded\":");
    reveal_strlit(",\"model_saved\":");
    reveal_strlit("}");
    let (first, second) = (value_text(MemberValue::Flag(a)), value_text(MemberValue::Flag(b)));
    assert(pair_text("model_available"@, first, "model_loaded"@, second)
        =~= "{\"model_available\":"@ + first + ",\"model_loaded\":"@ + second + "}"@);
    assert(pair_text("model_loaded"@, second, "model_saved"@, first) =~= "{\"model_loaded\":"@
        + second + ",\"model_saved\":"@ + first + "}"@);
}

} // verus!
