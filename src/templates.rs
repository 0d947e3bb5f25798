use vstd::prelude::*;
use crate::error::{QrgenError, TemplateKind};
use crate::text::{chars_of, same_text, upper_of, uppercase};

verus! {

/// Index of the first comma in `s`, or `s.len()` when there is none.
pub open spec fn comma_pos(s: Seq<char>) -> nat
    decreases s.len(),
{
    if s.len() == 0 {
        0
    } else if s[0] == ',' {
        0
    } else {
        1 + comma_pos(s.drop_first())
    }
}

/// `s` cut at its commas into at most `n` pieces (the last piece keeps any
/// remaining commas), as `str::splitn` does for `n >= 1`.
pub open spec fn split_n(s: Seq<char>, n: nat) -> Seq<Seq<char>>
    decreases n,
{
    let k = comma_pos(s);
    if n <= 1 || k >= s.len() {
        seq![s]
    } else {
        seq![s.take(k as int)] + split_n(s.skip(k + 1 as int), (n - 1) as nat)
    }
}

/// `s` cut at every comma, as `str::split(',')` does.
pub open spec fn fields(s: Seq<char>) -> Seq<Seq<char>> {
    split_n(s, s.len() + 1)
}

proof fn lemma_comma_pos(s: Seq<char>)
    ensures
        comma_pos(s) <= s.len(),
        forall|j: int| 0 <= j < comma_pos(s) ==> s[j] != ',',
        comma_pos(s) < s.len() ==> s[comma_pos(s) as int] == ',',
    decreases s.len(),
{
    if s.len() > 0 && s[0] != ',' {
        lemma_comma_pos(s.drop_first());
        assert forall|j: int| 0 <= j < comma_pos(s) implies s[j] != ',' by {
            if j > 0 {
                assert(s[j] == s.drop_first()[j - 1]);
            }
        }
    }
}

/// The characterisation of `comma_pos` by its defining properties.
proof fn lemma_comma_pos_unique(s: Seq<char>, k: int)
    requires
        0 <= k <= s.len(),
        forall|j: int| 0 <= j < k ==> s[j] != ',',
        k < s.len() ==> s[k] == ',',
    ensures
        comma_pos(s) == k,
    decreases s.len(),
{
    if s.len() > 0 && s[0] != ',' {
        assert forall|j: int| 0 <= j < k - 1 implies s.drop_first()[j] != ',' by {
            assert(s.drop_first()[j] == s[j + 1]);
        }
        lemma_comma_pos_unique(s.drop_first(), k - 1);
    }
}

/// The index of the first comma at or after `from`, or `chars.len()`.
fn find_comma(chars: &Vec<char>, from: usize) -> (r: usize)
    requires
        from <= chars@.len(),
    ensures
        from <= r <= chars@.len(),
        r - from == comma_pos(chars@.skip(from as int)),
{
    let mut i = from;
    while i < chars.len() && chars[i] != ','
        invariant
            from <= i <= chars@.len(),
            forall|j: int| from <= j < i ==> chars@[j] != ',',
        decreases chars@.len() - i,
    {
        i = i + 1;
    }
    proof {
        let t = chars@.skip(from as int);
        lemma_comma_pos_unique(t, i - from);
    }
    i
}

/// A string cut at every comma needs no more pieces than it has characters, plus one.
proof fn lemma_split_unbounded(s: Seq<char>, n: nat)
    requires
        n >= s.len() + 1,
    ensures
        split_n(s, n) == fields(s),
    decreases s.len(),
{
    lemma_comma_pos(s);
    let k = comma_pos(s);
    if k < s.len() {
        let t = s.skip(k + 1 as int);
        lemma_split_unbounded(t, (n - 1) as nat);
        lemma_split_unbounded(t, (s.len() + 1 - 1) as nat);
    }
}

/// `data` cut at every comma.
fn split_all(data: &str) -> (r: Vec<String>)
    ensures
        r.deep_view() == fields(data@),
{
    let chars = chars_of(data);
    let len = chars.len();
    let mut out: Vec<String> = Vec::new();
    let mut pos: usize = 0;
    assert(data@.skip(0) =~= data@);
    assert(out.deep_view() =~= Seq::<Seq<char>>::empty());
    loop
        invariant
            chars@ == data@,
            len == chars@.len(),
            pos <= len,
            out.deep_view() + fields(data@.skip(pos as int)) == fields(data@),
        decreases len - pos,
    {
        let k = find_comma(&chars, pos);
        let ghost rest = data@.skip(pos as int);
        if k == len {
            let piece = data.substring_char(pos, len);
            proof {
                assert(rest =~= data@.subrange(pos as int, len as int));
                assert(fields(rest) == seq![rest]);
            }
            out.push(String::from_str(piece));
            return out;
        }
        let piece = data.substring_char(pos, k);
        proof {
            assert(rest.take((k - pos) as int) =~= data@.subrange(pos as int, k as int));
            assert(rest.skip((k - pos) + 1 as int) =~= data@.skip(k + 1 as int));
            lemma_split_unbounded(data@.skip(k + 1 as int), rest.len());
        }
        out.push(String::from_str(piece));
        pos = k + 1;
    }
}

/// `data` cut at its commas into at most `limit` pieces.
fn split_pieces(data: &str, limit: usize) -> (r: Vec<String>)
    requires
        limit >= 1,
    ensures
        r.deep_view() == split_n(data@, limit as nat),
{
    let chars = chars_of(data);
    let len = chars.len();
    let mut out: Vec<String> = Vec::new();
    let mut pos: usize = 0;
    assert(data@.skip(0) =~= data@);
    assert(out.deep_view() =~= Seq::<Seq<char>>::empty());
    loop
        invariant
            chars@ == data@,
            len == chars@.len(),
            pos <= len,
            out@.len() < limit,
            out.deep_view() + split_n(data@.skip(pos as int), (limit - out@.len()) as nat)
                == split_n(data@, limit as nat),
        decreases len - pos,
    {
        let k = find_comma(&chars, pos);
        let ghost rest = data@.skip(pos as int);
        let ghost n = (limit - out@.len()) as nat;
        if limit - out.len() <= 1 || k == len {
            let piece = data.substring_char(pos, len);
            proof {
                assert(rest =~= data@.subrange(pos as int, len as int));
                assert(split_n(rest, n) == seq![rest]);
            }
            out.push(String::from_str(piece));
            return out;
        }
        let piece = data.substring_char(pos, k);
        proof {
            assert(rest.take((k - pos) as int) =~= data@.subrange(pos as int, k as int));
            assert(rest.skip((k - pos) + 1 as int) =~= data@.skip(k + 1 as int));
        }
        out.push(String::from_str(piece));
        pos = k + 1;
    }
}

proof fn lemma_split_len(s: Seq<char>, n: nat)
    ensures
        1 <= split_n(s, n).len(),
        n >= 1 ==> split_n(s, n).len() <= n,
    decreases n,
{
    lemma_comma_pos(s);
    let k = comma_pos(s);
    if n > 1 && k < s.len() {
        lemma_split_len(s.skip(k + 1 as int), (n - 1) as nat);
    }
}

/// Piece `i` of `p`, or the empty string when `p` has no such piece.
pub open spec fn piece_or_empty(p: Seq<Seq<char>>, i: int) -> Seq<char> {
    if 0 <= i < p.len() {
        p[i]
    } else {
        Seq::empty()
    }
}

pub open spec fn wifi_payload(encryption: Seq<char>, ssid: Seq<char>, password: Seq<char>) -> Seq<
    char,
> {
    "WIFI:T:"@ + encryption + ";S:"@ + ssid + ";P:"@ + password + ";;"@
}

/// The line `tag value` followed by a newline, or nothing when `value` is empty.
pub open spec fn optional_line(tag: Seq<char>, value: Seq<char>) -> Seq<char> {
    if value.len() == 0 {
        Seq::empty()
    } else {
        tag + value + "\n"@
    }
}

pub open spec fn vcard_payload(
    name: Seq<char>,
    phone: Seq<char>,
    email: Seq<char>,
    org: Seq<char>,
) -> Seq<char> {
    "BEGIN:VCARD\nVERSION:3.0\nFN:"@ + name + "\n"@ + optional_line("TEL:"@, phone)
        + optional_line("EMAIL:"@, email) + optional_line("ORG:"@, org) + "END:VCARD"@
}

pub open spec fn sms_payload(s: Seq<char>) -> Seq<char> {
    let p = split_n(s, 2);
    "SMSTO:"@ + p[0] + ":"@ + piece_or_empty(p, 1)
}

pub open spec fn email_payload(s: Seq<char>) -> Seq<char> {
    let p = split_n(s, 3);
    "mailto:"@ + p[0] + "?subject="@ + piece_or_empty(p, 1) + "&body="@ + piece_or_empty(p, 2)
}

pub open spec fn phone_payload(s: Seq<char>) -> Seq<char> {
    "tel:"@ + s
}

/// The encryption kept from a typed answer: WPA, WEP or NOPASS, else WPA.
pub open spec fn chosen_encryption(upper: Seq<char>) -> Seq<char> {
    if upper == "WPA"@ || upper == "WEP"@ || upper == "NOPASS"@ {
        upper
    } else {
        "WPA"@
    }
}

/// The payload of a template applied to raw comma-separated input, or `None`
/// where the input holds too few fields and they must be asked for.
pub open spec fn template_payload(kind: TemplateKind, data: Seq<char>) -> Option<Seq<char>> {
    let f = fields(data);
    match kind {
        TemplateKind::Wifi => if f.len() == 3 {
            Some(wifi_payload(upper_of(f[2]), f[0], f[1]))
        } else {
            None
        },
        TemplateKind::Vcard => if f.len() >= 2 {
            Some(vcard_payload(f[0], f[1], piece_or_empty(f, 2), piece_or_empty(f, 3)))
        } else {
            None
        },
        TemplateKind::Sms => Some(sms_payload(data)),
        TemplateKind::Email => Some(email_payload(data)),
        TemplateKind::Phone => Some(phone_payload(data)),
    }
}

pub open spec fn template_kind(name: Seq<char>) -> Option<TemplateKind> {
    if name == "wifi"@ {
        Some(TemplateKind::Wifi)
    } else if name == "vcard"@ {
        Some(TemplateKind::Vcard)
    } else if name == "sms"@ {
        Some(TemplateKind::Sms)
    } else if name == "email"@ {
        Some(TemplateKind::Email)
    } else if name == "phone"@ {
        Some(TemplateKind::Phone)
    } else {
        None
    }
}

/// Wi-Fi payload from three answers typed by a user; an encryption other than
/// WPA, WEP or NOPASS (after upper-casing) becomes WPA.
pub fn wifi_from_answers(ssid: &str, password: &str, encryption: &str) -> (r: String)
    ensures
        r@ == wifi_payload(chosen_encryption(upper_of(encryption@)), ssid@, password@),
{
    let upper = uppercase(encryption);
    let known = same_text(upper.as_str(), "WPA") || same_text(upper.as_str(), "WEP")
        || same_text(upper.as_str(), "NOPASS");
    let enc = if known {
        upper
    } else {
        String::from_str("WPA")
    };
    wifi_record(enc.as_str(), ssid, password)
}

fn wifi_record(encryption: &str, ssid: &str, password: &str) -> (r: String)
    ensures
        r@ == wifi_payload(encryption@, ssid@, password@),
{
    let mut out = String::from_str("WIFI:T:");
    out.append(encryption);
    out.append(";S:");
    out.append(ssid);
    out.append(";P:");
    out.append(password);
    out.append(";;");
    out
}

fn append_optional_line(out: &mut String, tag: &str, value: &str)
    ensures
        final(out)@ == old(out)@ + optional_line(tag@, value@),
{
    if value.is_empty() {
        assert(old(out)@ + Seq::<char>::empty() =~= old(out)@);
    } else {
        out.append(tag);
        out.append(value);
        out.append("\n");
    }
}

/// vCard 3.0 record from its four fields; an empty phone, email or
/// organisation leaves its line out.
pub fn vcard_from_answers(name: &str, phone: &str, email: &str, org: &str) -> (r: String)
    ensures
        r@ == vcard_payload(name@, phone@, email@, org@),
{
    let mut out = String::from_str("BEGIN:VCARD\nVERSION:3.0\nFN:");
    out.append(name);
    out.append("\n");
    append_optional_line(&mut out, "TEL:", phone);
    append_optional_line(&mut out, "EMAIL:", email);
    append_optional_line(&mut out, "ORG:", org);
    out.append("END:VCARD");
    out
}

/// Wi-Fi payload from `ssid,password,encryption`; any other field count asks
/// for the fields to be prompted.
pub fn wifi_template(data: &str) -> (r: Result<String, QrgenError>)
    ensures
        match template_payload(TemplateKind::Wifi, data@) {
            Some(p) => r is Ok && r->Ok_0@ == p,
            None => r == Err::<String, QrgenError>(QrgenError::NeedsPrompt(TemplateKind::Wifi)),
        },
{
    let parts = split_all(data);
    if parts.len() != 3 {
        return Err(QrgenError::NeedsPrompt(TemplateKind::Wifi));
    }
    assert(parts.deep_view()[2] == parts@[2]@);
    let enc = uppercase(parts[2].as_str());
    Ok(wifi_record(enc.as_str(), parts[0].as_str(), parts[1].as_str()))
}

/// vCard payload from `name,phone[,email[,org]]`; fewer than two fields asks
/// for the fields to be prompted.
pub fn vcard_template(data: &str) -> (r: Result<String, QrgenError>)
    ensures
        match template_payload(TemplateKind::Vcard, data@) {
            Some(p) => r is Ok && r->Ok_0@ == p,
            None => r == Err::<String, QrgenError>(QrgenError::NeedsPrompt(TemplateKind::Vcard)),
        },
{
    let parts = split_all(data);
    if parts.len() < 2 {
        return Err(QrgenError::NeedsPrompt(TemplateKind::Vcard));
    }
    let email = if parts.len() > 2 {
        parts[2].as_str()
    } else {
        ""
    };
    let org = if parts.len() > 3 {
        parts[3].as_str()
    } else {
        ""
    };
    proof {
        reveal_strlit("");
    }
    assert(parts.deep_view()[0] == parts@[0]@);
    assert(parts.deep_view()[1] == parts@[1]@);
    assert(email@ == piece_or_empty(parts.deep_view(), 2));
    assert(org@ == piece_or_empty(parts.deep_view(), 3));
    Ok(vcard_from_answers(parts[0].as_str(), parts[1].as_str(), email, org))
}

/// `SMSTO:number:message`, cut at the first comma only.
pub fn sms_template(data: &str) -> (r: String)
    ensures
        r@ == sms_payload(data@),
{
    let parts = split_pieces(data, 2);
    proof {
        lemma_split_len(data@, 2);
    }
    assert(parts.deep_view()[0] == parts@[0]@);
    let mut out = String::from_str("SMSTO:");
    out.append(parts[0].as_str());
    out.append(":");
    if parts.len() == 2 {
        assert(parts.deep_view()[1] == parts@[1]@);
        out.append(parts[1].as_str());
    } else {
        assert(out@ + Seq::<char>::empty() =~= out@);
    }
    out
}

/// `mailto:address?subject=..&body=..`, cut at the first two commas.
pub fn email_template(data: &str) -> (r: String)
    ensures
        r@ == email_payload(data@),
{
    let parts = split_pieces(data, 3);
    proof {
        lemma_split_len(data@, 3);
        reveal_strlit("");
    }
    let subject = if parts.len() > 1 {
        parts[1].as_str()
    } else {
        ""
    };
    let body = if parts.len() > 2 {
        parts[2].as_str()
    } else {
        ""
    };
    assert(parts.deep_view()[0] == parts@[0]@);
    assert(subject@ == piece_or_empty(parts.deep_view(), 1));
    assert(body@ == piece_or_empty(parts.deep_view(), 2));
    let mut out = String::from_str("mailto:");
    out.append(parts[0].as_str());
    out.append("?subject=");
    out.append(subject);
    out.append("&body=");
    out.append(body);
    out
}

/// `tel:` followed by the input, unchanged.
pub fn phone_template(data: &str) -> (r: String)
    ensures
        r@ == phone_payload(data@),
{
    let mut out = String::from_str("tel:");
    out.append(data);
    out
}

/// The template kind named by `name`: wifi, vcard, sms, email or phone.
pub fn template_kind_of(name: &str) -> (r: Option<TemplateKind>)
    ensures
        r == template_kind(name@),
{
    if same_text(name, "wifi") {
        Some(TemplateKind::Wifi)
    } else if same_text(name, "vcard") {
        Some(TemplateKind::Vcard)
    } else if same_text(name, "sms") {
        Some(TemplateKind::Sms)
    } else if same_text(name, "email") {
        Some(TemplateKind::Email)
    } else if same_text(name, "phone") {
        Some(TemplateKind::Phone)
    } else {
        None
    }
}

/// Applies the template named `template_type` to `data`.
pub fn apply_template(template_type: &str, data: &str) -> (r: Result<String, QrgenError>)
    ensures
        match template_kind(template_type@) {
            None => r is Err && r->Err_0 is UnknownTemplate && r->Err_0->UnknownTemplate_0@
                == template_type@,
            Some(k) => match template_payload(k, data@) {
                Some(p) => r is Ok && r->Ok_0@ == p,
                None => r == Err::<String, QrgenError>(QrgenError::NeedsPrompt(k)),
            },
        },
{
    match template_kind_of(template_type) {
        None => Err(QrgenError::UnknownTemplate(String::from_str(template_type))),
        Some(TemplateKind::Wifi) => wifi_template(data),
        Some(TemplateKind::Vcard) => vcard_template(data),
        Some(TemplateKind::Sms) => Ok(sms_template(data)),
        Some(TemplateKind::Email) => Ok(email_template(data)),
        Some(TemplateKind::Phone) => Ok(phone_template(data)),
    }
}

} // verus!
