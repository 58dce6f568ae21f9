use vstd::prelude::*;
use vstd::string::StringExecFns;
use vstd::string::StrSliceExecFns;

use sha2::Digest;

use crate::config::{captured_spec, CaptureHeaderConfig, TestConfig};
use crate::snapshots::Snapshot;

verus! {

/// The SHA-256 digest of a byte string.  The digest depends on the
/// bytes alone.
pub uninterp spec fn sha256_of(b: Seq<u8>) -> Seq<u8>;

/// Relies on sha2's Sha256: the 32-byte SHA-256 digest of the input,
/// a function of the input bytes alone.
#[verifier::external_body]
fn sha256_digest(b: &Vec<u8>) -> (r: Vec<u8>)
    ensures
        r@ == sha256_of(b@),
        r@.len() == 32,
{
    sha2::Sha256::digest(b.as_slice()).to_vec()
}

/// The lower-case hexadecimal digit for a value below 16.
pub open spec fn hex_digit_spec(n: u8) -> char {
    match n {
        0u8 => '0',
        1u8 => '1',
        2u8 => '2',
        3u8 => '3',
        4u8 => '4',
        5u8 => '5',
        6u8 => '6',
        7u8 => '7',
        8u8 => '8',
        9u8 => '9',
        10u8 => 'a',
        11u8 => 'b',
        12u8 => 'c',
        13u8 => 'd',
        14u8 => 'e',
        15u8 => 'f',
        _ => '0',
    }
}

/// The lower-case hexadecimal text of a byte string: two digits per
/// byte, high digit first.
pub open spec fn hex_of(b: Seq<u8>) -> Seq<char>
    decreases b.len(),
{
    if b.len() == 0 {
        Seq::<char>::empty()
    } else {
        hex_of(b.drop_last()) + seq![
            hex_digit_spec(b.last() / 16),
            hex_digit_spec(b.last() % 16),
        ]
    }
}

fn hex_digit(n: u8) -> (r: &'static str)
    requires
        n < 16,
    ensures
        r@ == seq![hex_digit_spec(n)],
{
    proof {
        reveal_strlit("0");
        reveal_strlit("1");
        reveal_strlit("2");
        reveal_strlit("3");
        reveal_strlit("4");
        reveal_strlit("5");
        reveal_strlit("6");
        reveal_strlit("7");
        reveal_strlit("8");
        reveal_strlit("9");
        reveal_strlit("a");
        reveal_strlit("b");
        reveal_strlit("c");
        reveal_strlit("d");
        reveal_strlit("e");
        reveal_strlit("f");
    }
    match n {
        0u8 => "0",
        1u8 => "1",
        2u8 => "2",
        3u8 => "3",
        4u8 => "4",
        5u8 => "5",
        6u8 => "6",
        7u8 => "7",
        8u8 => "8",
        9u8 => "9",
        10u8 => "a",
        11u8 => "b",
        12u8 => "c",
        13u8 => "d",
        14u8 => "e",
        _ => "f",
    }
}

/// The lower-case hexadecimal text of a byte string.
pub fn to_hex(b: &Vec<u8>) -> (r: String)
    ensures
        r@ == hex_of(b@),
{
    let mut r = String::new();
    let mut i: usize = 0;
    while i < b.len()
        invariant
            i <= b@.len(),
            r@ == hex_of(b@.subrange(0, i as int)),
        decreases b@.len() - i,
    {
        let byte = b[i];
        r.append(hex_digit(byte / 16));
        r.append(hex_digit(byte % 16));
        proof {
            let pre = b@.subrange(0, i + 1 as int);
            assert(pre.drop_last() =~= b@.subrange(0, i as int));
            assert(pre.last() == b@[i as int]);
            assert(r@ =~= hex_of(pre));
        }
        i = i + 1;
    }
    proof {
        assert(b@.subrange(0, b@.len() as int) =~= b@);
    }
    r
}

/// The hexadecimal SHA-256 digest of a response body.
pub fn hash_body(body: &Vec<u8>) -> (r: String)
    ensures
        r@ == hex_of(sha256_of(body@)),
        r@.len() == 64,
{
    let digest = sha256_digest(body);
    proof {
        lemma_hex_len(digest@);
    }
    to_hex(&digest)
}

proof fn lemma_hex_len(b: Seq<u8>)
    ensures
        hex_of(b).len() == 2 * b.len(),
    decreases b.len(),
{
    if b.len() > 0 {
        lemma_hex_len(b.drop_last());
    }
}

/// The size of a header block in its canonical written form: for each
/// header its name, a colon and space, its value, and the line end —
/// `name.len() + value.len() + 4` bytes.  Saturates at `usize::MAX`.
pub open spec fn header_size_spec(h: Seq<(String, String)>) -> int
    decreases h.len(),
{
    if h.len() == 0 {
        0
    } else {
        header_size_spec(h.drop_last()) + h.last().0@.len() + h.last().1@.len() + 4
    }
}

/// The size of the headers in their canonical written form.
pub fn calculate_header_size(h: &Vec<(String, String)>) -> (r: usize)
    ensures
        r == if header_size_spec(h@) > usize::MAX {
            usize::MAX as int
        } else {
            header_size_spec(h@)
        },
{
    let mut total: usize = 0;
    let mut i: usize = 0;
    while i < h.len()
        invariant
            i <= h@.len(),
            total == if header_size_spec(h@.subrange(0, i as int)) > usize::MAX {
                usize::MAX as int
            } else {
                header_size_spec(h@.subrange(0, i as int))
            },
        decreases h@.len() - i,
    {
        let (k, v) = &h[i];
        let add = k.as_str().unicode_len().saturating_add(v.as_str().unicode_len()).saturating_add(
            4,
        );
        total = total.saturating_add(add);
        proof {
            let pre = h@.subrange(0, i + 1 as int);
            assert(pre.drop_last() =~= h@.subrange(0, i as int));
            assert(pre.last() == h@[i as int]);
        }
        i = i + 1;
    }
    proof {
        assert(h@.subrange(0, h@.len() as int) =~= h@);
    }
    total
}

/// The headers of `headers` whose names the capture configuration
/// captures, in order.
pub fn extract_configured_headers(
    conf: &CaptureHeaderConfig,
    headers: &Vec<(String, String)>,
) -> (r: Vec<(String, String)>)
    ensures
        r@.len() <= headers@.len(),
        forall|i: int|
            0 <= i < r@.len() ==> captured_spec(conf, (#[trigger] r@[i]).0@),
        ({
            let kept = headers@.filter(|p: (String, String)| captured_spec(conf, p.0@));
            &&& r@.len() == kept.len()
            &&& forall|i: int|
                0 <= i < r@.len() ==> (#[trigger] r@[i]).0@ == kept[i].0@ && r@[i].1@
                    == kept[i].1@
        }),
    {
    let pred = Ghost(|p: (String, String)| captured_spec(conf, p.0@));
    let mut r: Vec<(String, String)> = Vec::new();
    let mut i: usize = 0;
    proof {
        reveal(Seq::filter);
        assert(headers@.subrange(0, 0).filter(pred@) =~= Seq::<(String, String)>::empty());
    }
    while i < headers.len()
        invariant
            i <= headers@.len(),
            pred@ == (|p: (String, String)| captured_spec(conf, p.0@)),
            r@.len() == headers@.subrange(0, i as int).filter(pred@).len(),
            forall|j: int|
                0 <= j < r@.len() ==> {
                    &&& (#[trigger] r@[j]).0@ == headers@.subrange(0, i as int).filter(
                        pred@,
                    )[j].0@
                    &&& r@[j].1@ == headers@.subrange(0, i as int).filter(pred@)[j].1@
                    &&& captured_spec(conf, r@[j].0@)
                },
            r@.len() <= i,
        decreases headers@.len() - i,
    {
        let (k, v) = &headers[i];
        let keep = match conf {
            CaptureHeaderConfig::All => true,
            CaptureHeaderConfig::List(l) => contains_ignore_case(l, k.as_str()),
        };
        proof {
            reveal(Seq::filter);
            let pre = headers@.subrange(0, i + 1 as int);
            assert(pre.drop_last() =~= headers@.subrange(0, i as int));
            assert(pre.last() == headers@[i as int]);
            assert(keep == pred@(headers@[i as int]));
        }
        if keep {
            r.push((k.clone(), v.clone()));
        }
        i = i + 1;
    }
    proof {
        assert(headers@.subrange(0, headers@.len() as int) =~= headers@);
    }
    r
}

/// Whether any name on the list equals `name` up to ASCII case.
fn contains_ignore_case(l: &Vec<String>, name: &str) -> (r: bool)
    ensures
        r == exists|i: int|
            0 <= i < l@.len() && crate::config::lower_seq((#[trigger] l@[i])@)
                == crate::config::lower_seq(name@),
{
    let mut i: usize = 0;
    while i < l.len()
        invariant
            i <= l@.len(),
            forall|j: int|
                0 <= j < i ==> crate::config::lower_seq((#[trigger] l@[j])@)
                    != crate::config::lower_seq(name@),
        decreases l@.len() - i,
    {
        if crate::config::eq_ignore_case(l[i].as_str(), name) {
            return true;
        }
        i = i + 1;
    }
    false
}

/// What one run of one test produced: the response's status and
/// headers, the body's digest, and the metric snapshots, with the
/// headers the configuration asked for pulled out.
#[derive(Debug)]
pub struct TestReport {
    pub config: TestConfig,
    pub snapshots: Vec<Snapshot>,
    pub status: u16,
    pub headers: Vec<(String, String)>,
    pub body_hash: String,
    pub captured_headers: Vec<(String, String)>,
}

impl TestReport {
    /// Build a report: the captured headers are those of the response
    /// that the test's capture configuration names.
    pub fn new(
        config: TestConfig,
        snapshots: Vec<Snapshot>,
        status: u16,
        headers: Vec<(String, String)>,
        body_hash: String,
    ) -> (r: TestReport)
        ensures
            r.status == status,
            r.body_hash == body_hash,
            r.headers == headers,
            r.snapshots == snapshots,
            ({
                let kept = headers@.filter(
                    |p: (String, String)| captured_spec(&config.capture_headers, p.0@),
                );
                &&& r.captured_headers@.len() == kept.len()
                &&& forall|i: int|
                    0 <= i < r.captured_headers@.len() ==> (#[trigger] r.captured_headers@[i]).0@
                        == kept[i].0@ && r.captured_headers@[i].1@ == kept[i].1@
            }),
    {
        let captured_headers = extract_configured_headers(&config.capture_headers, &headers);
        TestReport { config, snapshots, status, headers, body_hash, captured_headers }
    }

    /// Give the configuration back, for the next run of the same
    /// test.
    pub fn take_config(self) -> (r: TestConfig)
        ensures
            r == self.config,
    {
        self.config
    }
}

} // verus!
