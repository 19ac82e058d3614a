use vstd::prelude::*;
use vstd::utf8::encode_utf8;
use vstd::string::StringExecFns;
use crate::text::{chars_of, contains_chars, contains_seq, lowercase, lowercase_chars};
use crate::text::strings_view;

verus! {

broadcast use vstd::seq_lib::group_to_multiset_ensures;

/// Whether the bytes `a` come no later than the bytes `b` in lexicographic order
/// (a proper prefix comes first), the order of `Ord` on `str` and `String`.
pub open spec fn bytes_le(a: Seq<u8>, b: Seq<u8>) -> bool
    decreases a.len(),
{
    if a.len() == 0 {
        true
    } else if b.len() == 0 {
        false
    } else if a[0] != b[0] {
        a[0] < b[0]
    } else {
        bytes_le(a.drop_first(), b.drop_first())
    }
}

proof fn lemma_bytes_le_total(a: Seq<u8>, b: Seq<u8>)
    ensures
        bytes_le(a, b) || bytes_le(b, a),
    decreases a.len(),
{
    if a.len() > 0 && b.len() > 0 && a[0] == b[0] {
        lemma_bytes_le_total(a.drop_first(), b.drop_first());
    }
}

proof fn lemma_bytes_le_transitive(a: Seq<u8>, b: Seq<u8>, c: Seq<u8>)
    requires
        bytes_le(a, b),
        bytes_le(b, c),
    ensures
        bytes_le(a, c),
    decreases a.len(),
{
    if a.len() > 0 && b.len() > 0 && c.len() > 0 && a[0] == b[0] && b[0] == c[0] {
        lemma_bytes_le_transitive(a.drop_first(), b.drop_first(), c.drop_first());
    }
}

/// The sort key of a string: its UTF-8 bytes.
pub open spec fn key(s: Seq<char>) -> Seq<u8> {
    encode_utf8(s)
}

/// Whether the strings are in byte order.
pub open spec fn sorted_by_bytes(v: Seq<Seq<char>>) -> bool {
    forall|i: int, j: int| 0 <= i < j < v.len() ==> bytes_le(key(#[trigger] v[i]), key(#[trigger] v[j]))
}

fn bytes_le_exec(a: &[u8], b: &[u8]) -> (r: bool)
    ensures
        r == bytes_le(a@, b@),
{
    let mut i: usize = 0;
    proof {
        assert(a@.skip(0) =~= a@);
        assert(b@.skip(0) =~= b@);
    }
    while i < a.len() && i < b.len() && a[i] == b[i]
        invariant
            i <= a.len(),
            i <= b.len(),
            bytes_le(a@, b@) == bytes_le(a@.skip(i as int), b@.skip(i as int)),
        decreases a.len() - i,
    {
        proof {
            assert(a@.skip(i as int).drop_first() =~= a@.skip(i + 1));
            assert(b@.skip(i as int).drop_first() =~= b@.skip(i + 1));
        }
        i = i + 1;
    }
    if i == a.len() {
        true
    } else if i == b.len() {
        false
    } else {
        a[i] < b[i]
    }
}

fn string_le(a: &String, b: &String) -> (r: bool)
    ensures
        r == bytes_le(key(a@), key(b@)),
{
    bytes_le_exec(a.as_str().as_bytes(), b.as_str().as_bytes())
}

/// Sorts `v` into byte order (the order of `String`'s `Ord`), keeping every string.
pub fn sort_strings(v: Vec<String>) -> (r: Vec<String>)
    ensures
        sorted_by_bytes(strings_view(r@)),
        strings_view(r@).to_multiset() == strings_view(v@).to_multiset(),
{
    let mut out: Vec<String> = Vec::new();
    let mut rest = v;
    let ghost input = strings_view(rest@);
    // Take the strings from the back of the input one by one and insert each into place.
    while rest.len() > 0
        invariant
            rest.len() <= input.len(),
            strings_view(rest@) == input.take(rest.len() as int),
            sorted_by_bytes(strings_view(out@)),
            strings_view(out@).to_multiset() == input.skip(rest.len() as int).to_multiset(),
        decreases rest.len(),
    {
        let ghost before = strings_view(out@);
        let ghost old_rest = rest@;
        let x = rest.pop().unwrap();
        let ghost xv = x@;
        proof {
            assert(strings_view(rest@) =~= input.take(rest.len() as int));
            assert(strings_view(old_rest)[rest.len() as int] == xv);
            assert(input[rest.len() as int] == xv);
        }
        let mut pos = out.len();
        while pos > 0 && !string_le(&out[pos - 1], &x)
            invariant
                pos <= out.len(),
                before == strings_view(out@),
                xv == x@,
                forall|k: int| pos <= k < out.len() ==> !bytes_le(key(#[trigger] before[k]), key(xv)),
            decreases pos,
        {
            pos = pos - 1;
        }
        proof {
            assert forall|k: int| pos <= k < before.len() implies bytes_le(key(xv), key(#[trigger] before[k])) by {
                lemma_bytes_le_total(key(xv), key(before[k]));
            }
            if pos > 0 {
                assert(bytes_le(key(before[pos - 1]), key(xv)));
                assert forall|k: int| 0 <= k < pos implies bytes_le(key(#[trigger] before[k]), key(xv)) by {
                    if k < pos - 1 {
                        lemma_bytes_le_transitive(key(before[k]), key(before[pos - 1]), key(xv));
                    }
                }
            }
        }
        out.insert(pos, x);
        proof {
            let after = strings_view(out@);
            assert(after =~= before.insert(pos as int, xv));
            assert forall|i: int, j: int| 0 <= i < j < after.len() implies bytes_le(
                key(#[trigger] after[i]),
                key(#[trigger] after[j]),
            ) by {
                if j < pos {
                    assert(after[i] == before[i] && after[j] == before[j]);
                } else if j == pos {
                    assert(after[i] == before[i]);
                } else if i < pos {
                    assert(after[i] == before[i] && after[j] == before[j - 1]);
                    lemma_bytes_le_transitive(key(before[i]), key(xv), key(before[j - 1]));
                } else if i == pos {
                    assert(after[j] == before[j - 1]);
                } else {
                    assert(after[i] == before[i - 1] && after[j] == before[j - 1]);
                }
            }
            assert(after.remove(pos as int) =~= before);
            assert(after.to_multiset().remove(xv) =~= before.to_multiset());
            assert(after.to_multiset().count(xv) > 0);
            assert(after.to_multiset() =~= before.to_multiset().insert(xv));
            let n = rest.len() as int;
            assert(input.skip(n) =~= seq![xv] + input.skip(n + 1));
            assert(input.skip(n).to_multiset() =~= input.skip(n + 1).to_multiset().insert(xv)) by {
                assert(input.skip(n).remove(0) =~= input.skip(n + 1));
            }
        }
    }
    proof {
        assert(input.skip(0) =~= input);
    }
    out
}


/// The ids given in a model listing's entries, in order; an entry without a string
/// `id` gives none.
pub open spec fn present_ids(entries: Seq<Option<String>>) -> Seq<Seq<char>>
    decreases entries.len(),
{
    if entries.len() == 0 {
        Seq::empty()
    } else {
        match entries.last() {
            Some(id) => present_ids(entries.drop_last()).push(id@),
            None => present_ids(entries.drop_last()),
        }
    }
}

/// The ids that a model listing gives: `data` holds, for each entry of the reply's
/// `data` array, its `id` where that is a string; it is `None` where the reply has
/// no `data` array, and then no id is listed.
pub fn listed_ids(data: Option<Vec<Option<String>>>) -> (r: Vec<String>)
    ensures
        strings_view(r@) == (match data {
            Some(entries) => present_ids(entries@),
            None => Seq::<Seq<char>>::empty(),
        }),
{
    let mut ids: Vec<String> = Vec::new();
    match data {
        Some(entries) => {
            let mut i: usize = 0;
            while i < entries.len()
                invariant
                    i <= entries.len(),
                    strings_view(ids@) == present_ids(entries@.take(i as int)),
                decreases entries.len() - i,
            {
                proof {
                    assert(entries@.take(i + 1).drop_last() =~= entries@.take(i as int));
                }
                match &entries[i] {
                    Some(id) => {
                        ids.push(id.clone());
                    },
                    None => {},
                }
                assert(strings_view(ids@) =~= present_ids(entries@.take(i + 1)));
                i = i + 1;
            }
            assert(entries@.take(entries.len() as int) =~= entries@);
        },
        None => {},
    }
    ids
}

/// Whether a model id looks like a speech-to-text model: its lowercase form mentions
/// "whisper", "audio", "speech" or "transcri".
pub open spec fn is_audio_model(id: Seq<char>) -> bool {
    let l = lowercase(id);
    contains_seq(l, "whisper"@) || contains_seq(l, "audio"@) || contains_seq(l, "speech"@)
        || contains_seq(l, "transcri"@)
}

/// Whether a model id looks like a speech-to-text model.
pub fn looks_like_audio_model(id: &str) -> (r: bool)
    ensures
        r == is_audio_model(id@),
{
    let l = lowercase_chars(id);
    contains_chars(&l, &chars_of("whisper")) || contains_chars(&l, &chars_of("audio"))
        || contains_chars(&l, &chars_of("speech")) || contains_chars(&l, &chars_of("transcri"))
}

/// The ids of `ids` that look like speech-to-text models, in order.
pub open spec fn audio_ids(ids: Seq<Seq<char>>) -> Seq<Seq<char>>
    decreases ids.len(),
{
    if ids.len() == 0 {
        ids
    } else if is_audio_model(ids.last()) {
        audio_ids(ids.drop_last()).push(ids.last())
    } else {
        audio_ids(ids.drop_last())
    }
}

/// The models offered for selection: the speech-to-text ones if there are any, all of
/// them otherwise.
pub open spec fn offered_ids(ids: Seq<Seq<char>>) -> Seq<Seq<char>> {
    if audio_ids(ids).len() > 0 {
        audio_ids(ids)
    } else {
        ids
    }
}

/// The model list to offer from the ids an API lists: the speech-to-text models
/// (whisper, audio, speech, transcription) if there are any, else every id; in byte
/// order.
pub fn select_audio_models(ids: Vec<String>) -> (r: Vec<String>)
    ensures
        sorted_by_bytes(strings_view(r@)),
        strings_view(r@).to_multiset() == offered_ids(strings_view(ids@)).to_multiset(),
{
    let mut audio: Vec<String> = Vec::new();
    let mut i: usize = 0;
    while i < ids.len()
        invariant
            i <= ids.len(),
            strings_view(audio@) == audio_ids(strings_view(ids@).take(i as int)),
        decreases ids.len() - i,
    {
        proof {
            assert(strings_view(ids@).take(i + 1).drop_last() =~= strings_view(ids@).take(i as int));
        }
        if looks_like_audio_model(ids[i].as_str()) {
            audio.push(ids[i].clone());
            assert(strings_view(audio@) =~= audio_ids(strings_view(ids@).take(i + 1)));
        }
        i = i + 1;
    }
    assert(strings_view(ids@).take(ids.len() as int) =~= strings_view(ids@));
    if audio.len() > 0 {
        sort_strings(audio)
    } else {
        sort_strings(ids)
    }
}

/// How the API answered the model listing, by HTTP status.
#[derive(Debug, Clone, Copy, PartialEq, Eq, Structural)]
pub enum ModelsStatus {
    /// 200: the body lists the models.
    Listed,
    /// 401 or 403: the key was refused.
    Unauthorized,
    /// 404: the API has no model listing; the connection works all the same.
    NoListing,
    /// Any other status.
    Failed,
}

/// The meaning of an HTTP status for the model listing.
pub open spec fn models_status_spec(status: u16) -> ModelsStatus {
    if status == 200 {
        ModelsStatus::Listed
    } else if status == 401 || status == 403 {
        ModelsStatus::Unauthorized
    } else if status == 404 {
        ModelsStatus::NoListing
    } else {
        ModelsStatus::Failed
    }
}

/// The meaning of an HTTP status for the model listing.
pub fn classify_models_status(status: u16) -> (r: ModelsStatus)
    ensures
        r == models_status_spec(status),
{
    if status == 200 {
        ModelsStatus::Listed
    } else if status == 401 || status == 403 {
        ModelsStatus::Unauthorized
    } else if status == 404 {
        ModelsStatus::NoListing
    } else {
        ModelsStatus::Failed
    }
}

/// The decimal digits of `n`.
pub open spec fn decimal(n: nat) -> Seq<char>
    decreases n,
{
    if n < 10 {
        seq![digit_char(n)]
    } else {
        decimal(n / 10) + seq![digit_char(n % 10)]
    }
}

/// The digit character for `d` (below ten).
pub open spec fn digit_char(d: nat) -> char {
    if d == 0 { '0' } else if d == 1 { '1' } else if d == 2 { '2' } else if d == 3 { '3' }
    else if d == 4 { '4' } else if d == 5 { '5' } else if d == 6 { '6' } else if d == 7 { '7' }
    else if d == 8 { '8' } else { '9' }
}

fn digit(d: u64) -> (c: char)
    requires
        d < 10,
    ensures
        c == digit_char(d as nat),
{
    if d == 0 { '0' } else if d == 1 { '1' } else if d == 2 { '2' } else if d == 3 { '3' }
    else if d == 4 { '4' } else if d == 5 { '5' } else if d == 6 { '6' } else if d == 7 { '7' }
    else if d == 8 { '8' } else { '9' }
}

/// Appends the decimal digits of `n` to `v`.
pub fn push_decimal(v: &mut Vec<char>, n: u64)
    ensures
        final(v)@ == old(v)@ + decimal(n as nat),
    decreases n,
{
    if n >= 10 {
        push_decimal(v, n / 10);
    }
    v.push(digit(n % 10));
    assert(v@ =~= old(v)@ + decimal(n as nat));
}

/// The body of a failed reply as shown to the user: at most its first 200 bytes,
/// with "..." after a cut.
pub fn shorten_body(body: &str) -> (r: String)
    requires
        encode_utf8(body@).len() <= usize::MAX,
        encode_utf8(body@).len() > 200 ==> vstd::utf8::is_char_boundary(encode_utf8(body@), 200),
    ensures
        encode_utf8(body@).len() <= 200 ==> r@ == body@,
        encode_utf8(body@).len() > 200 ==> exists|kept: Seq<char>|
            encode_utf8(kept) == encode_utf8(body@).take(200) && r@ == kept + "..."@,
{
    if body.len() > 200 {
        let (head, _) = body.split_at(200);
        let mut r = head.to_owned();
        r.append("...");
        assert(encode_utf8(head@) =~= encode_utf8(body@).take(200));
        assert(r@ == head@ + "..."@);
        r
    } else {
        body.to_owned()
    }
}

/// Why the API test failed.
#[derive(Debug, Clone, PartialEq, Eq)]
pub enum ApiTestError {
    /// The API could not be reached (connection refused, timed out).
    Unreachable,
    /// The request failed otherwise; the transport's message.
    RequestFailed(String),
    /// The listing could not be read; the parser's message.
    ParseFailed(String),
    /// The key was refused (401 or 403).
    Unauthorized,
    /// Another HTTP status, with the shortened body.
    Http(u16, String),
}

impl ApiTestError {
    /// The message shown for the error.
    pub open spec fn message_spec(&self) -> Seq<char> {
        match self {
            ApiTestError::Unreachable => "Cannot reach API \u{2014} check the URL"@,
            ApiTestError::RequestFailed(e) => "Request failed: "@ + e@,
            ApiTestError::ParseFailed(e) => "Failed to parse response: "@ + e@,
            ApiTestError::Unauthorized => "Authentication failed \u{2014} check your API key"@,
            ApiTestError::Http(code, body) => "HTTP "@ + decimal(*code as nat) + ": "@ + body@,
        }
    }

    pub fn message(&self) -> (r: String)
        ensures
            r@ == self.message_spec(),
    {
        match self {
            ApiTestError::Unreachable => "Cannot reach API \u{2014} check the URL".to_owned(),
            ApiTestError::RequestFailed(e) => {
                let mut m = "Request failed: ".to_owned();
                m.append(e.as_str());
                m
            },
            ApiTestError::ParseFailed(e) => {
                let mut m = "Failed to parse response: ".to_owned();
                m.append(e.as_str());
                m
            },
            ApiTestError::Unauthorized => "Authentication failed \u{2014} check your API key".to_owned(),
            ApiTestError::Http(code, body) => {
                let mut v = chars_of("HTTP ");
                push_decimal(&mut v, *code as u64);
                crate::text::push_str(&mut v, ": ");
                crate::text::push_str(&mut v, body.as_str());
                let r = crate::text::string_of(v.as_slice());
                assert(r@ =~= self.message_spec());
                r
            },
        }
    }
}


/// The model listing's address for an API address: trailing slashes dropped, then
/// `/v1/models`.
pub fn models_url(base: &str) -> (r: String)
    ensures
        r@ == crate::transcribe::strip_trailing(base@, '/') + "/v1/models"@,
{
    let v = chars_of(base);
    let mut k = v.len();
    while k > 0 && v[k - 1] == '/'
        invariant
            k <= v.len(),
            forall|j: int| k <= j < v.len() ==> v@[j] == '/',
        decreases k,
    {
        k = k - 1;
    }
    proof {
        crate::transcribe::lemma_strip_trailing(v@, '/', k as int);
        assert(v@.subrange(0, k as int) =~= v@.take(k as int));
    }
    let mut u = crate::text::sub_chars(&v, 0, k);
    crate::text::push_str(&mut u, "/v1/models");
    crate::text::string_of(u.as_slice())
}

} // verus!
