//! The JSON request bodies the client sends, built byte for byte: text is
//! escaped as a JSON encoder escapes it, object keys come in the encoder's
//! sorted order, and each body's exact bytes are the specification.

use vstd::prelude::*;
use vstd::string::StringSliceAdditionalSpecFns;

use crate::text::{append_bool_text, append_i32, append_str, spec_bool_text, spec_i32_text};

verus! {

/// The ASCII hex digit of a value below sixteen, lower case.
pub open spec fn spec_hex_digit(n: u8) -> u8 {
    if n < 10 {
        (48 + n) as u8
    } else {
        (87 + n) as u8
    }
}

/// What a JSON encoder emits for one byte inside a string: quote and
/// backslash are escaped, the named control characters take their two-byte
/// escapes, other control bytes take the four-digit form, and everything
/// else — multi-byte text included — passes through.
pub open spec fn spec_escape_byte(b: u8) -> Seq<u8> {
    if b == 34 {
        seq![92u8, 34u8]
    } else if b == 92 {
        seq![92u8, 92u8]
    } else if b == 8 {
        seq![92u8, 98u8]
    } else if b == 9 {
        seq![92u8, 116u8]
    } else if b == 10 {
        seq![92u8, 110u8]
    } else if b == 12 {
        seq![92u8, 102u8]
    } else if b == 13 {
        seq![92u8, 114u8]
    } else if b < 32 {
        seq![92u8, 117u8, 48u8, 48u8, spec_hex_digit(b / 16), spec_hex_digit(b % 16)]
    } else {
        seq![b]
    }
}

/// A byte sequence with every byte escaped for a JSON string.
pub open spec fn spec_json_escaped(s: Seq<u8>) -> Seq<u8>
    decreases s.len(),
{
    if s.len() == 0 {
        Seq::empty()
    } else {
        spec_json_escaped(s.drop_last()) + spec_escape_byte(s.last())
    }
}

/// A JSON string: a quote, the escaped bytes, a quote.
pub open spec fn spec_json_string(s: Seq<u8>) -> Seq<u8> {
    seq![34u8] + spec_json_escaped(s) + seq![34u8]
}

/// A JSON optional number: `null` or its digits.
pub open spec fn spec_json_opt_i32(o: Option<int>) -> Seq<u8> {
    match o {
        None => "null".spec_bytes(),
        Some(v) => spec_i32_text(v),
    }
}

/// A JSON boolean.
pub open spec fn spec_json_bool(b: bool) -> Seq<u8> {
    spec_bool_text(b)
}

fn hex_digit(n: u8) -> (r: u8)
    requires
        n < 16,
    ensures
        r == spec_hex_digit(n),
{
    if n < 10 {
        48 + n
    } else {
        87 + n
    }
}

/// Append the bytes of `s`, escaped for a JSON string.
#[verifier::loop_isolation(false)]
pub fn append_json_escaped(out: &mut Vec<u8>, s: &str)
    ensures
        final(out)@ == old(out)@ + spec_json_escaped(s.spec_bytes()),
{
    let bytes = s.as_bytes();
    let mut i: usize = 0;
    while i < bytes.len()
        invariant
            i <= bytes.len(),
            out@ == old(out)@ + spec_json_escaped(bytes@.take(i as int)),
        decreases bytes.len() - i,
    {
        proof {
            assert(bytes@.take(i as int + 1).drop_last() =~= bytes@.take(i as int));
            assert(bytes@.take(i as int + 1).last() == bytes@[i as int]);
        }
        let b = bytes[i];
        if b == 34 {
            out.push(92);
            out.push(34);
        } else if b == 92 {
            out.push(92);
            out.push(92);
        } else if b == 8 {
            out.push(92);
            out.push(98);
        } else if b == 9 {
            out.push(92);
            out.push(116);
        } else if b == 10 {
            out.push(92);
            out.push(110);
        } else if b == 12 {
            out.push(92);
            out.push(102);
        } else if b == 13 {
            out.push(92);
            out.push(114);
        } else if b < 32 {
            out.push(92);
            out.push(117);
            out.push(48);
            out.push(48);
            out.push(hex_digit(b / 16));
            out.push(hex_digit(b % 16));
        } else {
            out.push(b);
        }
        proof {
            assert(out@ =~= old(out)@ + spec_json_escaped(bytes@.take(i as int + 1)));
        }
        i = i + 1;
    }
    proof {
        assert(bytes@.take(bytes@.len() as int) =~= bytes@);
    }
}

/// Append a JSON string holding `s`.
pub fn append_json_string(out: &mut Vec<u8>, s: &str)
    ensures
        final(out)@ == old(out)@ + spec_json_string(s.spec_bytes()),
{
    out.push(34);
    append_json_escaped(out, s);
    out.push(34);
    proof {
        assert(final(out)@ =~= old(out)@ + spec_json_string(s.spec_bytes()));
    }
}

/// Append `null` or the digits of the value.
pub fn append_json_opt_i32(out: &mut Vec<u8>, o: Option<i32>)
    ensures
        final(out)@ == old(out)@ + spec_json_opt_i32(crate::records::opt_int(o)),
{
    match o {
        None => append_str(out, "null"),
        Some(v) => append_i32(out, v),
    }
}

/// Append `true` or `false`.
pub fn append_json_bool(out: &mut Vec<u8>, b: bool)
    ensures
        final(out)@ == old(out)@ + spec_json_bool(b),
{
    append_bool_text(out, b);
}

// ---------------------------------------------------------------------------
// The request bodies, keys in the encoder's sorted order
// ---------------------------------------------------------------------------

/// The user-creation body.
pub open spec fn spec_user_body(name: Seq<u8>, email: Seq<u8>, account_type: Seq<u8>) -> Seq<u8> {
    "{\"account_type\":".spec_bytes() + spec_json_string(account_type) + ",\"email\":".spec_bytes()
        + spec_json_string(email) + ",\"name\":".spec_bytes() + spec_json_string(name)
        + "}".spec_bytes()
}

/// `POST /users` sends the name, email and account type as one object.
pub fn user_body(name: &str, email: &str, account_type: &str) -> (r: Vec<u8>)
    ensures
        r@ == spec_user_body(name.spec_bytes(), email.spec_bytes(), account_type.spec_bytes()),
{
    let mut out: Vec<u8> = Vec::new();
    append_str(&mut out, "{\"account_type\":");
    append_json_string(&mut out, account_type);
    append_str(&mut out, ",\"email\":");
    append_json_string(&mut out, email);
    append_str(&mut out, ",\"name\":");
    append_json_string(&mut out, name);
    append_str(&mut out, "}");
    out
}

/// The user-update body: the service serializes the tuple of id, name,
/// email and account type, which a JSON encoder renders as an array.
pub open spec fn spec_update_user_body(
    id: int,
    name: Seq<u8>,
    email: Seq<u8>,
    account_type: Seq<u8>,
) -> Seq<u8> {
    "[".spec_bytes() + spec_i32_text(id) + ",".spec_bytes() + spec_json_string(name)
        + ",".spec_bytes() + spec_json_string(email) + ",".spec_bytes() + spec_json_string(
        account_type,
    ) + "]".spec_bytes()
}

/// `PUT /users/{id}` sends the edited fields as an array.
pub fn update_user_body(id: i32, name: &str, email: &str, account_type: &str) -> (r: Vec<u8>)
    ensures
        r@ == spec_update_user_body(
            id as int,
            name.spec_bytes(),
            email.spec_bytes(),
            account_type.spec_bytes(),
        ),
{
    let mut out: Vec<u8> = Vec::new();
    append_str(&mut out, "[");
    append_i32(&mut out, id);
    append_str(&mut out, ",");
    append_json_string(&mut out, name);
    append_str(&mut out, ",");
    append_json_string(&mut out, email);
    append_str(&mut out, ",");
    append_json_string(&mut out, account_type);
    append_str(&mut out, "]");
    out
}

/// The season-creation body.
pub open spec fn spec_gameshow_body(name: Seq<u8>) -> Seq<u8> {
    "{\"name\":".spec_bytes() + spec_json_string(name) + "}".spec_bytes()
}

/// `POST /gameshows` sends only the name.
pub fn gameshow_body(name: &str) -> (r: Vec<u8>)
    ensures
        r@ == spec_gameshow_body(name.spec_bytes()),
{
    let mut out: Vec<u8> = Vec::new();
    append_str(&mut out, "{\"name\":");
    append_json_string(&mut out, name);
    append_str(&mut out, "}");
    out
}

/// The league-creation body.
pub open spec fn spec_league_body(name: Seq<u8>, id_showseason: int) -> Seq<u8> {
    "{\"id_showseason\":".spec_bytes() + spec_i32_text(id_showseason) + ",\"name\":".spec_bytes()
        + spec_json_string(name) + "}".spec_bytes()
}

/// `POST /leagues` sends the league's name and its season.
pub fn league_body(name: &str, id_showseason: i32) -> (r: Vec<u8>)
    ensures
        r@ == spec_league_body(name.spec_bytes(), id_showseason as int),
{
    let mut out: Vec<u8> = Vec::new();
    append_str(&mut out, "{\"id_showseason\":");
    append_i32(&mut out, id_showseason);
    append_str(&mut out, ",\"name\":");
    append_json_string(&mut out, name);
    append_str(&mut out, "}");
    out
}

/// The contestant-creation body: the name, plus the state's optional round
/// and medevac fields, which an encoder renders as `null` when absent.
pub open spec fn spec_contestant_create_body(
    name: Seq<u8>,
    round_number: Option<int>,
    was_medically_evacuated: Option<bool>,
) -> Seq<u8> {
    "{\"name\":".spec_bytes() + spec_json_string(name) + ",\"round_number\":".spec_bytes()
        + spec_json_opt_i32(round_number) + ",\"was_medically_evacuated\":".spec_bytes() + (
    match was_medically_evacuated {
        None => "null".spec_bytes(),
        Some(b) => spec_json_bool(b),
    }) + "}".spec_bytes()
}

/// `POST /contestants` sends the name with the raw optional state fields.
pub fn contestant_create_body(
    name: &str,
    round_number: Option<i32>,
    was_medically_evacuated: Option<bool>,
) -> (r: Vec<u8>)
    ensures
        r@ == spec_contestant_create_body(
            name.spec_bytes(),
            crate::records::opt_int(round_number),
            was_medically_evacuated,
        ),
{
    let mut out: Vec<u8> = Vec::new();
    append_str(&mut out, "{\"name\":");
    append_json_string(&mut out, name);
    append_str(&mut out, ",\"round_number\":");
    append_json_opt_i32(&mut out, round_number);
    append_str(&mut out, ",\"was_medically_evacuated\":");
    match was_medically_evacuated {
        None => append_str(&mut out, "null"),
        Some(b) => append_json_bool(&mut out, b),
    }
    append_str(&mut out, "}");
    out
}

/// The body carrying a full contestant state: enrollment, elimination and
/// medevac requests all send it.
pub open spec fn spec_contestant_record_body(
    id: Option<int>,
    id_showseason: Option<int>,
    name: Seq<u8>,
    round_number: int,
    was_medically_evacuated: bool,
) -> Seq<u8> {
    "{\"id\":".spec_bytes() + spec_json_opt_i32(id) + ",\"id_showseason\":".spec_bytes()
        + spec_json_opt_i32(id_showseason) + ",\"name\":".spec_bytes() + spec_json_string(name)
        + ",\"round_number\":".spec_bytes() + spec_i32_text(round_number)
        + ",\"was_medically_evacuated\":".spec_bytes() + spec_json_bool(was_medically_evacuated)
        + "}".spec_bytes()
}

/// One contestant state as a JSON object, identifiers `null` when unset.
pub fn contestant_record_body(
    id: Option<i32>,
    id_showseason: Option<i32>,
    name: &str,
    round_number: i32,
    was_medically_evacuated: bool,
) -> (r: Vec<u8>)
    ensures
        r@ == spec_contestant_record_body(
            crate::records::opt_int(id),
            crate::records::opt_int(id_showseason),
            name.spec_bytes(),
            round_number as int,
            was_medically_evacuated,
        ),
{
    let mut out: Vec<u8> = Vec::new();
    append_str(&mut out, "{\"id\":");
    append_json_opt_i32(&mut out, id);
    append_str(&mut out, ",\"id_showseason\":");
    append_json_opt_i32(&mut out, id_showseason);
    append_str(&mut out, ",\"name\":");
    append_json_string(&mut out, name);
    append_str(&mut out, ",\"round_number\":");
    append_i32(&mut out, round_number);
    append_str(&mut out, ",\"was_medically_evacuated\":");
    append_json_bool(&mut out, was_medically_evacuated);
    append_str(&mut out, "}");
    out
}

} // verus!
