//! A small record type exercising the item contract.
//!
//! A `TestItem` carries a counter, a free-form data string, and an optional
//! secret. Its byte encoding is a fixed little-endian framing: the counter,
//! then the data string as a length-prefixed UTF-8 run, then a one-byte
//! marker telling whether a secret follows, and if so the secret as another
//! length-prefixed run. The framing is proved lossless: decoding undoes
//! encoding exactly.

use vstd::bytes::*;
use vstd::prelude::*;
use vstd::slice::*;
use vstd::string::*;
use vstd::utf8::*;

use crate::dec;
use crate::errors::StorageError;
use crate::item::StorageItem;

verus! {

/// The mathematical content of a [`TestItem`].
#[verifier::ext_equal]
pub struct TestItemView {
    pub counter: u32,
    pub data: Seq<char>,
    pub secret: Option<Seq<char>>,
}

/// A record with a counter, a data string, and an optional secret.
#[derive(Debug)]
pub struct TestItem {
    counter: u32,
    data: String,
    secret: Option<String>,
}

impl View for TestItem {
    type V = TestItemView;

    closed spec fn view(&self) -> TestItemView {
        TestItemView {
            counter: self.counter,
            data: self.data@,
            secret: match self.secret {
                Some(s) => Some(s@),
                None => None,
            },
        }
    }
}

impl Default for TestItem {
    /// A fresh item: counter zero, empty data, no secret.
    fn default() -> (r: TestItem)
        ensures
            r@ == TestItem::default_view(),
    {
        let item = TestItem { counter: 0, data: String::new(), secret: None };
        proof {
            assert(item@ =~= TestItem::default_view());
        }
        item
    }
}

impl TestItem {
    /// Bumps the counter by one.
    pub fn increment_counter(&mut self)
        requires
            old(self)@.counter < u32::MAX,
        ensures
            final(self)@ == (TestItemView { counter: (old(self)@.counter + 1) as u32, ..old(self)@ }),
    {
        self.counter = self.counter + 1;
    }

    /// The current counter value.
    pub fn counter(&self) -> (r: u32)
        ensures
            r == self@.counter,
    {
        self.counter
    }

    /// Replaces the data string.
    pub fn set_data(&mut self, data: &str)
        ensures
            final(self)@ == (TestItemView { data: data@, ..old(self)@ }),
    {
        self.data = String::from_str(data);
    }

    /// The current data string.
    pub fn data(&self) -> (r: &str)
        ensures
            r@ == self@.data,
    {
        self.data.as_str()
    }

    /// The secret, if one has been set.
    pub fn secret(&self) -> (r: Option<&str>)
        ensures
            match r {
                Some(s) => self@.secret == Some(s@),
                None => self@.secret is None,
            },
    {
        match &self.secret {
            Some(s) => Some(s.as_str()),
            None => None,
        }
    }

    /// Sets the secret.
    pub fn set_secret(&mut self, secret: &str)
        ensures
            final(self)@ == (TestItemView { secret: Some(secret@), ..old(self)@ }),
    {
        self.secret = Some(String::from_str(secret));
    }

    /// Proposes the candidate after `previous`: one past it, or the fixed
    /// start value when there is no previous.
    fn generate_next_id_u64(previous: Option<u64>) -> (r: u64)
        requires
            previous matches Some(p) ==> p < u64::MAX,
        ensures
            r == TestItem::next_id_of(previous),
    {
        match previous {
            Some(p) => p + 1,
            None => 1,
        }
    }
}

/// Relies on `String::from_utf8` (std): it succeeds exactly on valid UTF-8
/// and returns the string those bytes spell, matching vstd's model of UTF-8
/// decoding.
#[verifier::external_body]
fn string_from_utf8(bytes: Vec<u8>) -> (r: Option<String>)
    ensures
        match r {
            Some(s) => valid_utf8(bytes@) && s@ == decode_utf8(bytes@),
            None => !valid_utf8(bytes@),
        },
{
    String::from_utf8(bytes).ok()
}

/// One length-prefixed UTF-8 run: the byte length as eight little-endian
/// bytes, then the bytes themselves.
pub open spec fn encode_run(s: Seq<char>) -> Seq<u8> {
    spec_u64_to_le_bytes(encode_utf8(s).len() as u64) + encode_utf8(s)
}

impl StorageItem for TestItem {
    /// Counter, data run, secret marker, and (for a present secret) the
    /// secret run.
    open spec fn encode_view(v: TestItemView) -> Seq<u8> {
        spec_u32_to_le_bytes(v.counter) + encode_run(v.data) + (match v.secret {
            None => seq![0u8],
            Some(s) => seq![1u8] + encode_run(s),
        })
    }

    open spec fn decode_view(d: Seq<u8>) -> Option<TestItemView> {
        if d.len() < 12 {
            None
        } else {
            let counter = spec_u32_from_le_bytes(d.subrange(0, 4));
            let dlen = spec_u64_from_le_bytes(d.subrange(4, 12)) as int;
            if d.len() < 12 + dlen {
                None
            } else {
                let dbytes = d.subrange(12, 12 + dlen);
                let rest = d.subrange(12 + dlen, d.len() as int);
                if !valid_utf8(dbytes) || rest.len() == 0 {
                    None
                } else if rest[0] == 0u8 {
                    if rest.len() == 1 {
                        Some(TestItemView { counter, data: decode_utf8(dbytes), secret: None })
                    } else {
                        None
                    }
                } else if rest[0] == 1u8 {
                    if rest.len() < 9 {
                        None
                    } else {
                        let slen = spec_u64_from_le_bytes(rest.subrange(1, 9)) as int;
                        if rest.len() != 9 + slen {
                            None
                        } else {
                            let sbytes = rest.subrange(9, 9 + slen);
                            if valid_utf8(sbytes) {
                                Some(
                                    TestItemView {
                                        counter,
                                        data: decode_utf8(dbytes),
                                        secret: Some(decode_utf8(sbytes)),
                                    },
                                )
                            } else {
                                None
                            }
                        }
                    }
                } else {
                    None
                }
            }
        }
    }

    open spec fn view_wf(v: TestItemView) -> bool {
        encode_utf8(v.data).len() <= u64::MAX && (v.secret matches Some(s)
            ==> encode_utf8(s).len() <= u64::MAX)
    }

    open spec fn default_view() -> TestItemView {
        TestItemView { counter: 0, data: Seq::empty(), secret: None }
    }

    open spec fn next_id_of(previous: Option<u64>) -> u64 {
        match previous {
            None => 1,
            Some(p) => (p + 1) as u64,
        }
    }

    open spec fn id_of_text(text: Seq<char>) -> Option<u64> {
        if text.len() > 0 && dec::all_digits(text) && dec::dec_val(text) <= u64::MAX {
            Some(dec::dec_val(text) as u64)
        } else {
            None
        }
    }

    proof fn lemma_codec_round_trip(v: TestItemView) {
        lemma_auto_spec_u32_to_from_le_bytes();
        lemma_auto_spec_u64_to_from_le_bytes();
        let d = Self::encode_view(v);
        let c4 = spec_u32_to_le_bytes(v.counter);
        let db = encode_utf8(v.data);
        let l8 = spec_u64_to_le_bytes(db.len() as u64);
        let n = db.len() as int;
        encode_utf8_valid_utf8(v.data);
        encode_utf8_decode_utf8(v.data);
        assert(d.subrange(0, 4) =~= c4);
        assert(d.subrange(4, 12) =~= l8);
        assert(spec_u64_from_le_bytes(l8) == n);
        assert(d.subrange(12, 12 + n) =~= db);
        match v.secret {
            None => {
                assert(d.len() == 12 + n + 1);
                let rest = d.subrange(12 + n, d.len() as int);
                assert(rest =~= seq![0u8]);
                assert(Self::decode_view(d) matches Some(w) && w =~= v);
            },
            Some(s) => {
                let sb = encode_utf8(s);
                let sl8 = spec_u64_to_le_bytes(sb.len() as u64);
                let m = sb.len() as int;
                encode_utf8_valid_utf8(s);
                encode_utf8_decode_utf8(s);
                assert(d.len() == 12 + n + 1 + 8 + m);
                let rest = d.subrange(12 + n, d.len() as int);
                assert(rest =~= seq![1u8] + sl8 + sb);
                assert(rest[0] == 1u8);
                assert(rest.subrange(1, 9) =~= sl8);
                assert(spec_u64_from_le_bytes(sl8) == m);
                assert(rest.subrange(9, 9 + m) =~= sb);
                assert(Self::decode_view(d) matches Some(w) && w =~= v);
            },
        }
    }

    fn serialize(&self) -> (r: Result<Vec<u8>, StorageError>) {
        let mut out = u32_to_le_bytes(self.counter);
        let db: &[u8] = self.data.as_str().as_bytes();
        let mut lb = u64_to_le_bytes(db.len() as u64);
        out.append(&mut lb);
        let mut dv = slice_to_vec(db);
        out.append(&mut dv);
        match &self.secret {
            None => {
                out.push(0u8);
                proof {
                    assert(out@ =~= Self::encode_view(self@));
                    assert(Self::view_wf(self@));
                }
            },
            Some(s) => {
                out.push(1u8);
                let sb: &[u8] = s.as_str().as_bytes();
                let mut slb = u64_to_le_bytes(sb.len() as u64);
                out.append(&mut slb);
                let mut sv = slice_to_vec(sb);
                out.append(&mut sv);
                proof {
                    assert(out@ =~= Self::encode_view(self@));
                    assert(Self::view_wf(self@));
                }
            },
        }
        Ok(out)
    }

    fn deserialize(data: &[u8]) -> (r: Result<TestItem, StorageError>) {
        if data.len() < 12 {
            return Err(StorageError::CodecError);
        }
        let cb = slice_subrange(data, 0, 4);
        let counter = u32_from_le_bytes(cb);
        let lb = slice_subrange(data, 4, 12);
        let dlen64 = u64_from_le_bytes(lb);
        if dlen64 > (data.len() - 12) as u64 {
            return Err(StorageError::CodecError);
        }
        let dlen = dlen64 as usize;
        let dbytes = slice_subrange(data, 12, 12 + dlen);
        let rest_start = 12 + dlen;
        let ghost rest = data@.subrange(rest_start as int, data@.len() as int);
        let data_string = match string_from_utf8(slice_to_vec(dbytes)) {
            Some(s) => s,
            None => {
                return Err(StorageError::CodecError);
            },
        };
        if rest_start >= data.len() {
            assert(rest.len() == 0);
            return Err(StorageError::CodecError);
        }
        let marker = *slice_index_get(data, rest_start);
        assert(marker == rest[0]);
        if marker == 0u8 {
            if data.len() != rest_start + 1 {
                assert(rest.len() != 1);
                return Err(StorageError::CodecError);
            }
            let item = TestItem { counter, data: data_string, secret: None };
            proof {
                assert(rest.len() == 1);
                decode_utf8_encode_utf8(dbytes@);
                assert(Self::decode_view(data@) matches Some(w) && w =~= item@);
                assert(Self::view_wf(item@));
            }
            Ok(item)
        } else if marker == 1u8 {
            if data.len() - rest_start < 9 {
                assert(rest.len() < 9);
                return Err(StorageError::CodecError);
            }
            let slb = slice_subrange(data, rest_start + 1, rest_start + 9);
            assert(slb@ =~= rest.subrange(1, 9));
            let slen64 = u64_from_le_bytes(slb);
            if slen64 != (data.len() - (rest_start + 9)) as u64 {
                assert(rest.len() != 9 + slen64 as int);
                return Err(StorageError::CodecError);
            }
            let sbytes = slice_subrange(data, rest_start + 9, data.len());
            assert(sbytes@ =~= rest.subrange(9, 9 + slen64 as int));
            let secret_string = match string_from_utf8(slice_to_vec(sbytes)) {
                Some(s) => s,
                None => {
                    return Err(StorageError::CodecError);
                },
            };
            let item = TestItem { counter, data: data_string, secret: Some(secret_string) };
            proof {
                decode_utf8_encode_utf8(dbytes@);
                decode_utf8_encode_utf8(sbytes@);
                assert(Self::decode_view(data@) matches Some(w) && w =~= item@);
                assert(Self::view_wf(item@));
            }
            Ok(item)
        } else {
            Err(StorageError::CodecError)
        }
    }

    fn new_item() -> (r: TestItem) {
        let item = TestItem { counter: 0, data: String::new(), secret: None };
        proof {
            assert(item@ =~= Self::default_view());
        }
        item
    }

    fn generate_next_id(previous: Option<u64>) -> (r: u64) {
        TestItem::generate_next_id_u64(previous)
    }

    fn make_id(text: &str) -> (r: Result<u64, StorageError>) {
        match dec::parse_u64(text) {
            Some(v) => Ok(v),
            None => Err(StorageError::CodecError),
        }
    }
}

} // verus!
