//! The device identity: four identifiers that are made anew together, and
//! the JSON document that holds them.

use crate::error::AuthError;
use crate::json::{empty_object, error_text, is_object, json_model, parse, parsed_json, pretty_text, render_pretty, set_text, Json};
use crate::text::{digit, hex_digit};
use vstd::prelude::*;
use vstd::string::*;

verus! {

/// The sixteen bytes of a fresh random identifier, from `uuid::Uuid::new_v4`.
/// Whatever the bytes are, they carry the marks of a random identifier: the
/// upper half of the seventh byte is 4, and the eighth byte begins with the
/// bits 1 and 0. Nothing else is known of them. (The call does not return
/// where the system gives no random bytes.)
#[verifier::external_body]
fn fresh_identifier() -> (r: [u8; 16])
    ensures
        r@[6] / 16 == 4,
        r@[8] / 64 == 2,
{
    uuid::Uuid::new_v4().into_bytes()
}

/// The two hexadecimal digits of a byte.
pub open spec fn hex_byte(b: u8, capital: bool) -> Seq<char> {
    seq![hex_digit(b as int / 16, capital), hex_digit(b as int % 16, capital)]
}

/// The hexadecimal digits of bytes, two for each, in their order.
pub open spec fn hex(bytes: Seq<u8>, capital: bool) -> Seq<char>
    decreases bytes.len(),
{
    if bytes.len() == 0 {
        Seq::empty()
    } else {
        hex(bytes.drop_last(), capital) + hex_byte(bytes.last(), capital)
    }
}

/// Appends the hexadecimal digits of the bytes from `from` up to `to`.
fn push_hex(out: &mut String, bytes: &[u8; 16], from: usize, to: usize, capital: bool)
    requires
        from <= to <= 16,
    ensures
        final(out)@ == old(out)@ + hex(bytes@.subrange(from as int, to as int), capital),
{
    let mut i: usize = from;
    assert(bytes@.subrange(from as int, from as int) =~= Seq::<u8>::empty());
    while i < to
        invariant
            from <= i <= to <= 16,
            out@ == old(out)@ + hex(bytes@.subrange(from as int, i as int), capital),
        decreases to - i,
    {
        let b = bytes[i];
        proof {
            let upto = bytes@.subrange(from as int, i + 1);
            assert(upto.drop_last() =~= bytes@.subrange(from as int, i as int));
            assert(upto.last() == b);
        }
        let ghost before = out@;
        out.append(digit(b / 16, capital));
        out.append(digit(b % 16, capital));
        assert(out@ =~= before + hex_byte(b, capital));
        i += 1;
    }
}

/// The plain form of an identifier: its thirty-two hexadecimal digits in
/// small letters.
pub open spec fn simple(id: Seq<u8>) -> Seq<char> {
    hex(id, false)
}

/// The usual form of an identifier: its digits in groups of eight, four,
/// four, four and twelve, with hyphens between.
pub open spec fn hyphenated(id: Seq<u8>, capital: bool) -> Seq<char> {
    hex(id.subrange(0, 4), capital) + seq!['-'] + hex(id.subrange(4, 6), capital) + seq!['-'] + hex(
        id.subrange(6, 8),
        capital,
    ) + seq!['-'] + hex(id.subrange(8, 10), capital) + seq!['-'] + hex(id.subrange(10, 16), capital)
}

/// The usual form of an identifier in capital letters, within braces.
pub open spec fn braced(id: Seq<u8>) -> Seq<char> {
    seq!['{'] + hyphenated(id, true) + seq!['}']
}

/// Appends the usual form of an identifier.
fn push_hyphenated(out: &mut String, id: &[u8; 16], capital: bool)
    ensures
        final(out)@ == old(out)@ + hyphenated(id@, capital),
{
    proof {
        reveal_strlit("-");
    }
    assert("-"@ =~= seq!['-']);
    push_hex(out, id, 0, 4, capital);
    out.append("-");
    push_hex(out, id, 4, 6, capital);
    out.append("-");
    push_hex(out, id, 6, 8, capital);
    out.append("-");
    push_hex(out, id, 8, 10, capital);
    out.append("-");
    push_hex(out, id, 10, 16, capital);
    assert(out@ =~= old(out)@ + hyphenated(id@, capital));
}

/// The four identifiers of a device.
#[derive(Debug, Clone, PartialEq, Eq)]
pub struct DeviceIdentitySet {
    pub machine_id: String,
    pub mac_machine_id: String,
    pub dev_device_id: String,
    pub sqm_id: String,
}

impl DeviceIdentitySet {
    /// The identity that six random identifiers give: two for the machine,
    /// two for its network address, one for the device and one for the
    /// quality measurement.
    ///
    /// The first two identifiers are the plain forms of a pair, one behind
    /// the other; the third is the usual form of one identifier; the fourth
    /// is the usual form in capital letters, within braces.
    pub fn from_identifiers(
        machine: (&[u8; 16], &[u8; 16]),
        mac_machine: (&[u8; 16], &[u8; 16]),
        device: &[u8; 16],
        sqm: &[u8; 16],
    ) -> (r: Self)
        ensures
            r.machine_id@ == simple(machine.0@) + simple(machine.1@),
            r.mac_machine_id@ == simple(mac_machine.0@) + simple(mac_machine.1@),
            r.dev_device_id@ == hyphenated(device@, false),
            r.sqm_id@ == braced(sqm@),
    {
        proof {
            reveal_strlit("{");
            reveal_strlit("}");
        }
        assert("{"@ =~= seq!['{']);
        assert("}"@ =~= seq!['}']);
        let mut machine_id = String::new();
        push_hex(&mut machine_id, machine.0, 0, 16, false);
        push_hex(&mut machine_id, machine.1, 0, 16, false);
        let mut mac_machine_id = String::new();
        push_hex(&mut mac_machine_id, mac_machine.0, 0, 16, false);
        push_hex(&mut mac_machine_id, mac_machine.1, 0, 16, false);
        let mut dev_device_id = String::new();
        push_hyphenated(&mut dev_device_id, device, false);
        let mut sqm_id = "{".to_owned();
        push_hyphenated(&mut sqm_id, sqm, true);
        sqm_id.append("}");
        assert(machine.0@.subrange(0, 16) =~= machine.0@);
        assert(machine.1@.subrange(0, 16) =~= machine.1@);
        assert(mac_machine.0@.subrange(0, 16) =~= mac_machine.0@);
        assert(mac_machine.1@.subrange(0, 16) =~= mac_machine.1@);
        assert(machine_id@ =~= simple(machine.0@) + simple(machine.1@));
        assert(mac_machine_id@ =~= simple(mac_machine.0@) + simple(mac_machine.1@));
        assert(dev_device_id@ =~= hyphenated(device@, false));
        DeviceIdentitySet { machine_id, mac_machine_id, dev_device_id, sqm_id }
    }
}

/// Whether a character is a hexadecimal digit, with letters small or capital.
pub open spec fn is_hex_digit(c: char, capital: bool) -> bool {
    ('0' <= c && c <= '9') || if capital {
        'A' <= c && c <= 'F'
    } else {
        'a' <= c && c <= 'f'
    }
}

/// Whether a text is sixty-four hexadecimal digits in small letters.
pub open spec fn is_machine_id(text: Seq<char>) -> bool {
    text.len() == 64 && forall|i: int| 0 <= i < 64 ==> is_hex_digit(#[trigger] text[i], false)
}

/// Whether a text has the usual form of an identifier: thirty-six
/// characters, hyphens as the ninth, fourteenth, nineteenth and
/// twenty-fourth, and hexadecimal digits elsewhere.
pub open spec fn is_hyphenated(text: Seq<char>, capital: bool) -> bool {
    text.len() == 36 && forall|i: int|
        0 <= i < 36 ==> if i == 8 || i == 13 || i == 18 || i == 23 {
            #[trigger] text[i] == '-'
        } else {
            is_hex_digit(text[i], capital)
        }
}

/// Whether a text is the usual form of an identifier in capital letters,
/// within braces.
pub open spec fn is_braced(text: Seq<char>) -> bool {
    &&& text.len() == 38
    &&& text[0] == '{'
    &&& text[37] == '}'
    &&& is_hyphenated(text.subrange(1, 37), true)
}

/// Whether the four identifiers have the forms they are documented with.
pub open spec fn well_formed(ids: DeviceIdentitySet) -> bool {
    &&& is_machine_id(ids.machine_id@)
    &&& is_machine_id(ids.mac_machine_id@)
    &&& is_hyphenated(ids.dev_device_id@, false)
    &&& is_braced(ids.sqm_id@)
}

/// Bytes have two digits each, and nothing but digits.
pub proof fn lemma_hex_form(bytes: Seq<u8>, capital: bool)
    ensures
        hex(bytes, capital).len() == 2 * bytes.len(),
        forall|i: int| 0 <= i < 2 * bytes.len() ==> is_hex_digit(#[trigger] hex(bytes, capital)[i], capital),
    decreases bytes.len(),
{
    if bytes.len() > 0 {
        lemma_hex_form(bytes.drop_last(), capital);
    }
}

/// The forms of identifiers, whatever their sixteen bytes are.
pub proof fn lemma_identifier_forms(head: Seq<u8>, tail: Seq<u8>, capital: bool)
    requires
        head.len() == 16,
        tail.len() == 16,
    ensures
        is_machine_id(simple(head) + simple(tail)),
        is_hyphenated(hyphenated(head, capital), capital),
        is_braced(braced(head)),
{
    lemma_hex_form(head, false);
    lemma_hex_form(tail, false);
    lemma_hex_form(head.subrange(0, 4), capital);
    lemma_hex_form(head.subrange(4, 6), capital);
    lemma_hex_form(head.subrange(6, 8), capital);
    lemma_hex_form(head.subrange(8, 10), capital);
    lemma_hex_form(head.subrange(10, 16), capital);
    lemma_hex_form(head.subrange(0, 4), true);
    lemma_hex_form(head.subrange(4, 6), true);
    lemma_hex_form(head.subrange(6, 8), true);
    lemma_hex_form(head.subrange(8, 10), true);
    lemma_hex_form(head.subrange(10, 16), true);
    assert(braced(head).subrange(1, 37) =~= hyphenated(head, true));
}

/// Whether sixteen bytes carry the marks of a random identifier.
pub open spec fn is_random(id: Seq<u8>) -> bool {
    id.len() == 16 && id[6] / 16 == 4 && id[8] / 64 == 2
}

/// Whether a character is the digit that begins the fourth group of a random
/// identifier: eight, nine, ten or eleven.
pub open spec fn is_variant_digit(c: char, capital: bool) -> bool {
    c == '8' || c == '9' || c == hex_digit(10, capital) || c == hex_digit(11, capital)
}

/// Whether a text in the usual form shows the marks of a random identifier:
/// its third group begins with 4, and its fourth with a digit from eight to
/// eleven.
pub open spec fn shows_random_marks(text: Seq<char>, capital: bool) -> bool {
    text.len() == 36 && text[14] == '4' && is_variant_digit(text[19], capital)
}

/// Whether a text of two plain forms shows the marks of two random
/// identifiers.
pub open spec fn shows_random_pair(text: Seq<char>) -> bool {
    &&& text.len() == 64
    &&& text[12] == '4'
    &&& is_variant_digit(text[16], false)
    &&& text[44] == '4'
    &&& is_variant_digit(text[48], false)
}

/// Whether each of the four identifiers shows the marks of random
/// identifiers.
pub open spec fn shows_randomness(ids: DeviceIdentitySet) -> bool {
    &&& shows_random_pair(ids.machine_id@)
    &&& shows_random_pair(ids.mac_machine_id@)
    &&& shows_random_marks(ids.dev_device_id@, false)
    &&& ids.sqm_id@.len() == 38
    &&& shows_random_marks(ids.sqm_id@.subrange(1, 37), true)
}

/// The digits of a byte within the digits of bytes.
proof fn lemma_hex_index(bytes: Seq<u8>, capital: bool, k: int)
    requires
        0 <= k < bytes.len(),
    ensures
        hex(bytes, capital).len() == 2 * bytes.len(),
        hex(bytes, capital)[2 * k] == hex_digit(bytes[k] as int / 16, capital),
        hex(bytes, capital)[2 * k + 1] == hex_digit(bytes[k] as int % 16, capital),
    decreases bytes.len(),
{
    lemma_hex_form(bytes, capital);
    lemma_hex_form(bytes.drop_last(), capital);
    if k < bytes.len() - 1 {
        lemma_hex_index(bytes.drop_last(), capital, k);
    }
}

/// The marks of a random identifier show in its forms.
pub proof fn lemma_random_marks_show(head: Seq<u8>, tail: Seq<u8>, capital: bool)
    requires
        is_random(head),
        is_random(tail),
    ensures
        shows_random_pair(simple(head) + simple(tail)),
        shows_random_marks(hyphenated(head, capital), capital),
{
    lemma_hex_index(head, false, 6);
    lemma_hex_index(head, false, 8);
    lemma_hex_index(tail, false, 6);
    lemma_hex_index(tail, false, 8);
    lemma_hex_form(head.subrange(0, 4), capital);
    lemma_hex_form(head.subrange(4, 6), capital);
    lemma_hex_index(head.subrange(6, 8), capital, 0);
    lemma_hex_index(head.subrange(8, 10), capital, 0);
    lemma_hex_form(head.subrange(10, 16), capital);
}

/// A byte is told by its two digits.
proof fn lemma_byte_is_told(a: u8, b: u8, capital: bool)
    requires
        hex_digit(a as int / 16, capital) == hex_digit(b as int / 16, capital),
        hex_digit(a as int % 16, capital) == hex_digit(b as int % 16, capital),
    ensures
        a == b,
{
    assert(a as int / 16 == b as int / 16);
    assert(a as int % 16 == b as int % 16);
}

/// Where the digits of the byte with index `k` begin in the usual form.
pub open spec fn place_in_usual_form(k: int) -> int {
    2 * k + if k < 4 {
        0int
    } else if k < 6 {
        1int
    } else if k < 8 {
        2int
    } else if k < 10 {
        3int
    } else {
        4int
    }
}

/// The digits of a byte within the usual form of an identifier.
proof fn lemma_hyphenated_index(id: Seq<u8>, capital: bool, k: int)
    requires
        id.len() == 16,
        0 <= k < 16,
    ensures
        hyphenated(id, capital).len() == 36,
        hyphenated(id, capital)[place_in_usual_form(k)] == hex_digit(id[k] as int / 16, capital),
        hyphenated(id, capital)[place_in_usual_form(k) + 1] == hex_digit(id[k] as int % 16, capital),
{
    lemma_hex_form(id.subrange(0, 4), capital);
    lemma_hex_form(id.subrange(4, 6), capital);
    lemma_hex_form(id.subrange(6, 8), capital);
    lemma_hex_form(id.subrange(8, 10), capital);
    lemma_hex_form(id.subrange(10, 16), capital);
    if k < 4 {
        lemma_hex_index(id.subrange(0, 4), capital, k);
    } else if k < 6 {
        lemma_hex_index(id.subrange(4, 6), capital, k - 4);
    } else if k < 8 {
        lemma_hex_index(id.subrange(6, 8), capital, k - 6);
    } else if k < 10 {
        lemma_hex_index(id.subrange(8, 10), capital, k - 8);
    } else {
        lemma_hex_index(id.subrange(10, 16), capital, k - 10);
    }
}

/// An identifier is told by its usual form: two identifiers with the same
/// usual form are the same.
pub proof fn lemma_usual_form_tells(a: Seq<u8>, b: Seq<u8>, capital: bool)
    requires
        a.len() == 16,
        b.len() == 16,
        hyphenated(a, capital) == hyphenated(b, capital),
    ensures
        a == b,
{
    assert forall|k: int| 0 <= k < 16 implies a[k] == b[k] by {
        lemma_hyphenated_index(a, capital, k);
        lemma_hyphenated_index(b, capital, k);
        lemma_byte_is_told(a[k], b[k], capital);
    }
    assert(a =~= b);
}

/// An identifier is told by its form within braces.
pub proof fn lemma_braced_form_tells(a: Seq<u8>, b: Seq<u8>)
    requires
        a.len() == 16,
        b.len() == 16,
        braced(a) == braced(b),
    ensures
        a == b,
{
    lemma_hex_form(a, true);
    lemma_identifier_forms(a, a, true);
    lemma_identifier_forms(b, b, true);
    assert(braced(a).subrange(1, 37) =~= hyphenated(a, true));
    assert(braced(b).subrange(1, 37) =~= hyphenated(b, true));
    lemma_usual_form_tells(a, b, true);
}

/// A pair of identifiers is told by its two plain forms, one behind the
/// other. So two identities differ in a field wherever the random
/// identifiers behind that field differ.
pub proof fn lemma_plain_pair_tells(a: Seq<u8>, b: Seq<u8>, c: Seq<u8>, d: Seq<u8>)
    requires
        a.len() == 16,
        b.len() == 16,
        c.len() == 16,
        d.len() == 16,
        simple(a) + simple(b) == simple(c) + simple(d),
    ensures
        a == c,
        b == d,
{
    lemma_hex_form(a, false);
    lemma_hex_form(b, false);
    lemma_hex_form(c, false);
    lemma_hex_form(d, false);
    let left = simple(a) + simple(b);
    let right = simple(c) + simple(d);
    assert forall|k: int| 0 <= k < 16 implies a[k] == c[k] && b[k] == d[k] by {
        lemma_hex_index(a, false, k);
        lemma_hex_index(b, false, k);
        lemma_hex_index(c, false, k);
        lemma_hex_index(d, false, k);
        assert(left[2 * k] == simple(a)[2 * k] && right[2 * k] == simple(c)[2 * k]);
        assert(left[2 * k + 1] == simple(a)[2 * k + 1] && right[2 * k + 1] == simple(c)[2 * k + 1]);
        assert(left[32 + 2 * k] == simple(b)[2 * k] && right[32 + 2 * k] == simple(d)[2 * k]);
        assert(left[32 + 2 * k + 1] == simple(b)[2 * k + 1] && right[32 + 2 * k + 1] == simple(d)[2 * k + 1]);
        lemma_byte_is_told(a[k], c[k], false);
        lemma_byte_is_told(b[k], d[k], false);
    }
    assert(a =~= c);
    assert(b =~= d);
}

/// Makes a fresh device identity from six random identifiers. Which
/// identifiers come is a matter of chance; their forms are not.
pub fn generate_identity() -> (r: DeviceIdentitySet)
    ensures
        well_formed(r),
        shows_randomness(r),
{
    let a = fresh_identifier();
    let b = fresh_identifier();
    let c = fresh_identifier();
    let d = fresh_identifier();
    let e = fresh_identifier();
    let f = fresh_identifier();
    proof {
        lemma_identifier_forms(a@, b@, false);
        lemma_identifier_forms(c@, d@, false);
        lemma_identifier_forms(e@, e@, false);
        lemma_identifier_forms(f@, f@, true);
        lemma_random_marks_show(a@, b@, false);
        lemma_random_marks_show(c@, d@, false);
        lemma_random_marks_show(e@, e@, false);
        lemma_random_marks_show(f@, f@, true);
        assert(braced(f@).subrange(1, 37) =~= hyphenated(f@, true));
    }
    DeviceIdentitySet::from_identifiers((&a, &b), (&c, &d), &e, &f)
}

/// The name of the member that holds the machine identifier.
pub open spec fn machine_id_key() -> Seq<char> {
    "telemetry.machineId"@
}

/// The name of the member that holds the identifier of the network address.
pub open spec fn mac_machine_id_key() -> Seq<char> {
    "telemetry.macMachineId"@
}

/// The name of the member that holds the device identifier.
pub open spec fn dev_device_id_key() -> Seq<char> {
    "telemetry.devDeviceId"@
}

/// The name of the member that holds the identifier of the quality
/// measurement.
pub open spec fn sqm_id_key() -> Seq<char> {
    "telemetry.sqmId"@
}

/// The members of a document after a reset: the four identifiers stand under
/// their names, and every other member is what it was.
pub open spec fn reset_members(members: Map<Seq<char>, Json>, ids: DeviceIdentitySet) -> Map<Seq<char>, Json> {
    members.insert(machine_id_key(), Json::Text(ids.machine_id@)).insert(
        mac_machine_id_key(),
        Json::Text(ids.mac_machine_id@),
    ).insert(dev_device_id_key(), Json::Text(ids.dev_device_id@)).insert(sqm_id_key(), Json::Text(ids.sqm_id@))
}

/// Puts a device identity into a document.
///
/// The result is an object. Where `document` is an object, the result has
/// its members, but for the four identifiers, which are set to `ids`. Where
/// it is anything else, the result has the four identifiers and nothing more.
pub fn reset_document(document: serde_json::Value, ids: &DeviceIdentitySet) -> (r: serde_json::Value)
    ensures
        json_model(r) == Json::Object(reset_members(json_model(document).members(), *ids)),
{
    let mut out = if is_object(&document) {
        document
    } else {
        empty_object()
    };
    set_text(&mut out, "telemetry.machineId", ids.machine_id.as_str());
    set_text(&mut out, "telemetry.macMachineId", ids.mac_machine_id.as_str());
    set_text(&mut out, "telemetry.devDeviceId", ids.dev_device_id.as_str());
    set_text(&mut out, "telemetry.sqmId", ids.sqm_id.as_str());
    out
}

/// The members that a reset starts from: those of the object that the
/// existing text holds, and none where there is no text, where the text is
/// not JSON, or where it is JSON and no object.
pub open spec fn existing_members(existing: Option<&str>) -> Map<Seq<char>, Json> {
    match existing {
        Some(text) => match parsed_json(text@) {
            Some(value) => value.members(),
            None => Map::empty(),
        },
        None => Map::empty(),
    }
}

/// Reads the document that a reset starts from. A text that cannot be read
/// as JSON is not an error: it counts as a document without members.
pub fn read_document(existing: Option<&str>) -> (r: serde_json::Value)
    ensures
        json_model(r).members() == existing_members(existing),
{
    match existing {
        Some(text) => match parse(text) {
            Some(value) => value,
            None => empty_object(),
        },
        None => empty_object(),
    }
}

/// Rewrites the text of the identity document: the text that is to be
/// written in the place of `existing`.
///
/// This succeeds on every input. The new text is the pretty form of an
/// object that holds the four identifiers of `ids` and, beside them, every
/// member of the existing document. An existing text that is not JSON, or is
/// JSON and no object, is no error: it counts as a document without members.
pub fn update_storage_file(existing: Option<&str>, ids: &DeviceIdentitySet) -> (r: Result<String, AuthError>)
    ensures
        r matches Ok(text) && text@ == pretty_text(
            Json::Object(reset_members(existing_members(existing), *ids)),
        ),
{
    let document = reset_document(read_document(existing), ids);
    match render_pretty(&document) {
        Ok(text) => Ok(text),
        Err(e) => Err(AuthError::Io(error_text(&e))),
    }
}

/// A reset keeps what it does not own: a member under any other name than
/// the four is there afterwards if, and only if, it was there before, and
/// with the value it had. The four identifiers are there afterwards, as
/// texts, whatever was there before.
pub proof fn lemma_reset_keeps_other_members(members: Map<Seq<char>, Json>, ids: DeviceIdentitySet, name: Seq<char>)
    ensures
        ({
            let after = reset_members(members, ids);
            &&& after.contains_key(machine_id_key()) && after[machine_id_key()] == Json::Text(ids.machine_id@)
            &&& after.contains_key(mac_machine_id_key()) && after[mac_machine_id_key()] == Json::Text(
                ids.mac_machine_id@,
            )
            &&& after.contains_key(dev_device_id_key()) && after[dev_device_id_key()] == Json::Text(
                ids.dev_device_id@,
            )
            &&& after.contains_key(sqm_id_key()) && after[sqm_id_key()] == Json::Text(ids.sqm_id@)
            &&& name != machine_id_key() && name != mac_machine_id_key() && name != dev_device_id_key() && name
                != sqm_id_key() ==> (after.contains_key(name) <==> members.contains_key(name)) && (
            members.contains_key(name) ==> after[name] == members[name])
        }),
{
    reveal_strlit("telemetry.machineId");
    reveal_strlit("telemetry.macMachineId");
    reveal_strlit("telemetry.devDeviceId");
    reveal_strlit("telemetry.sqmId");
    assert(machine_id_key()[13] != mac_machine_id_key()[13]);
    assert(machine_id_key()[10] != dev_device_id_key()[10]);
    assert(machine_id_key()[10] != sqm_id_key()[10]);
    assert(mac_machine_id_key()[10] != dev_device_id_key()[10]);
    assert(mac_machine_id_key()[10] != sqm_id_key()[10]);
    assert(dev_device_id_key()[10] != sqm_id_key()[10]);
}

/// A second reset keeps nothing of the first but what it does not own: two
/// resets in a row leave the document that the second alone would leave.
pub proof fn lemma_second_reset_replaces_first(
    members: Map<Seq<char>, Json>,
    first: DeviceIdentitySet,
    second: DeviceIdentitySet,
)
    ensures
        reset_members(reset_members(members, first), second) == reset_members(members, second),
{
    assert(reset_members(reset_members(members, first), second) =~= reset_members(members, second));
}

} // verus!
