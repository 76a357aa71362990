//! Request signing: a secret-keyed digest over the canonical parameter string.
//!
//! An upload is signed by joining the sorted `key=value` parameters with `&`,
//! appending the shared secret directly (no separator), taking the SHA-1
//! digest of the UTF-8 bytes of that text, and rendering the digest as
//! lowercase hexadecimal. Every step of the format is part of the protocol:
//! the destination recomputes the same string to verify the signature.

use vstd::prelude::*;
use vstd::relations::sorted_by;
use crate::canonical::{
    canonical_params, join_pairs, lemma_canonical_of_sorted, lemma_canonical_order_independent,
    lex_le, pair_chars, pair_ordering, ParamPair,
};
use crate::numeric::{dec_of, u64_to_decimal};
use sha1::Digest;

verus! {

/// What the SHA-1 digest of a string's UTF-8 bytes is. The digest is a pure
/// function of the characters; its value is pinned only by the outside
/// implementation.
pub uninterp spec fn sha1_utf8_of(text: Seq<char>) -> Seq<u8>;

/// Relies on `sha1::Sha1` (via the `sha1::Digest` interface) applied to
/// `str::as_bytes`: the 20-byte SHA-1 digest of the string's UTF-8 bytes,
/// a function of the characters alone.
#[verifier::external_body]
fn sha1_of_str(text: &str) -> (r: Vec<u8>)
    ensures
        r@ == sha1_utf8_of(text@),
        r@.len() == 20,
{
    let mut hasher = sha1::Sha1::new();
    hasher.update(text.as_bytes());
    hasher.finalize().to_vec()
}

/// Renders a value below 16 as a lowercase hexadecimal digit.
pub open spec fn hex_digit(d: nat) -> char {
    if d == 0 {
        '0'
    } else if d == 1 {
        '1'
    } else if d == 2 {
        '2'
    } else if d == 3 {
        '3'
    } else if d == 4 {
        '4'
    } else if d == 5 {
        '5'
    } else if d == 6 {
        '6'
    } else if d == 7 {
        '7'
    } else if d == 8 {
        '8'
    } else if d == 9 {
        '9'
    } else if d == 10 {
        'a'
    } else if d == 11 {
        'b'
    } else if d == 12 {
        'c'
    } else if d == 13 {
        'd'
    } else if d == 14 {
        'e'
    } else {
        'f'
    }
}

/// Lowercase hexadecimal rendering of a byte sequence: two digits per byte,
/// in byte order.
pub open spec fn hex_of(bytes: Seq<u8>) -> Seq<char>
    decreases bytes.len(),
{
    if bytes.len() == 0 {
        Seq::empty()
    } else {
        hex_of(bytes.drop_last())
            + seq![hex_digit((bytes.last() / 16) as nat), hex_digit((bytes.last() % 16) as nat)]
    }
}

fn hex_char(d: u8) -> (r: &'static str)
    requires
        d < 16,
    ensures
        r@ == seq![hex_digit(d as nat)],
{
    proof {
        reveal_strlit("0");
        reveal_strlit("1");
        reveal_strlit("2");
        reveal_strlit("3");
        reveal_strlit("4");
        reveal_strlit("5");
        reveal_strlit("6");
        reveal_strlit("7");
        reveal_strlit("8");
        reveal_strlit("9");
        reveal_strlit("a");
        reveal_strlit("b");
        reveal_strlit("c");
        reveal_strlit("d");
        reveal_strlit("e");
        reveal_strlit("f");
    }
    let r = match d {
        0 => "0",
        1 => "1",
        2 => "2",
        3 => "3",
        4 => "4",
        5 => "5",
        6 => "6",
        7 => "7",
        8 => "8",
        9 => "9",
        10 => "a",
        11 => "b",
        12 => "c",
        13 => "d",
        14 => "e",
        _ => "f",
    };
    proof {
        assert(r@ =~= seq![hex_digit(d as nat)]);
    }
    r
}

/// Renders bytes as lowercase hexadecimal, matching `hex_of`.
pub fn bytes_to_hex(bytes: &Vec<u8>) -> (r: String)
    ensures
        r@ == hex_of(bytes@),
{
    let mut s = String::new();
    let mut i: usize = 0;
    while i < bytes.len()
        invariant
            i <= bytes@.len(),
            s@ == hex_of(bytes@.take(i as int)),
        decreases bytes@.len() - i,
    {
        let b = bytes[i];
        s.append(hex_char(b / 16));
        s.append(hex_char(b % 16));
        i = i + 1;
        proof {
            let taken = bytes@.take(i as int);
            assert(taken.drop_last() =~= bytes@.take(i - 1));
            assert(taken.last() == bytes@[i - 1]);
        }
    }
    proof {
        assert(bytes@.take(bytes@.len() as int) =~= bytes@);
    }
    s
}

/// The four signed parameters, keyed as the destination expects them, in
/// the order the uploader supplies them. The timestamp is rendered in
/// decimal.
pub open spec fn signing_params(
    folder: Seq<char>,
    display_name: Seq<char>,
    public_id: Seq<char>,
    timestamp: nat,
) -> Seq<ParamPair> {
    seq![
        ("folder"@, folder),
        ("display_name"@, display_name),
        ("public_id"@, public_id),
        ("timestamp"@, dec_of(timestamp)),
    ]
}

/// The text whose digest signs the request: the canonical parameter string
/// with the shared secret appended directly, no separator.
pub open spec fn signing_payload(
    folder: Seq<char>,
    display_name: Seq<char>,
    public_id: Seq<char>,
    timestamp: nat,
    secret: Seq<char>,
) -> Seq<char> {
    canonical_params(signing_params(folder, display_name, public_id, timestamp)) + secret
}

/// An upload signature: the lowercase hex rendering of the SHA-1 digest of
/// the signing payload.
pub open spec fn signature_of(
    folder: Seq<char>,
    display_name: Seq<char>,
    public_id: Seq<char>,
    timestamp: nat,
    secret: Seq<char>,
) -> Seq<char> {
    hex_of(sha1_utf8_of(signing_payload(folder, display_name, public_id, timestamp, secret)))
}

/// The canonical form of the four signed parameters written out: the keys
/// sort as `display_name`, `folder`, `public_id`, `timestamp`.
pub proof fn lemma_signing_payload_form(
    folder: Seq<char>,
    display_name: Seq<char>,
    public_id: Seq<char>,
    timestamp: nat,
    secret: Seq<char>,
)
    ensures
        signing_payload(folder, display_name, public_id, timestamp, secret)
            =~= "display_name="@ + display_name + "&folder="@ + folder + "&public_id="@
            + public_id + "&timestamp="@ + dec_of(timestamp) + secret,
{
    reveal_strlit("folder");
    reveal_strlit("display_name");
    reveal_strlit("public_id");
    reveal_strlit("timestamp");
    reveal_strlit("=");
    reveal_strlit("&");
    reveal_strlit("display_name=");
    reveal_strlit("&folder=");
    reveal_strlit("&public_id=");
    reveal_strlit("&timestamp=");
    let params = signing_params(folder, display_name, public_id, timestamp);
    let target: Seq<ParamPair> = seq![
        ("display_name"@, display_name),
        ("folder"@, folder),
        ("public_id"@, public_id),
        ("timestamp"@, dec_of(timestamp)),
    ];
    let leq = pair_ordering();
    assert(lex_le("display_name"@, "folder"@));
    assert(lex_le("display_name"@, "public_id"@));
    assert(lex_le("display_name"@, "timestamp"@));
    assert(lex_le("folder"@, "public_id"@));
    assert(lex_le("folder"@, "timestamp"@));
    assert(lex_le("public_id"@, "timestamp"@));
    assert forall|i: int, j: int| 0 <= i < j < target.len() implies #[trigger] leq(
        target[i],
        target[j],
    ) by {
        assert("display_name"@.len() == 12);
        assert("folder"@.len() == 6);
        assert("public_id"@.len() == 9);
        assert("timestamp"@.len() == 9);
        assert("public_id"@[0] == 'p' && "timestamp"@[0] == 't');
    }
    assert(sorted_by(target, leq));
    assert(params.to_multiset() == target.to_multiset()) by {
        broadcast use vstd::seq_lib::group_to_multiset_ensures;

        let pf: ParamPair = ("folder"@, folder);
        let pd: ParamPair = ("display_name"@, display_name);
        let pp: ParamPair = ("public_id"@, public_id);
        let pt: ParamPair = ("timestamp"@, dec_of(timestamp));
        assert(params =~= Seq::empty().push(pf).push(pd).push(pp).push(pt));
        assert(target =~= Seq::empty().push(pd).push(pf).push(pp).push(pt));
        let m0 = Seq::<ParamPair>::empty().to_multiset();
        assert(params.to_multiset() =~= m0.insert(pf).insert(pd).insert(pp).insert(pt));
        assert(target.to_multiset() =~= m0.insert(pd).insert(pf).insert(pp).insert(pt));
        assert(m0.insert(pf).insert(pd).insert(pp).insert(pt) =~= m0.insert(pd).insert(pf).insert(
            pp,
        ).insert(pt));
    }
    lemma_canonical_of_sorted(params, target);
    assert(join_pairs(target) == pair_chars(target[0]) + "&"@ + (pair_chars(target[1]) + "&"@ + (
    pair_chars(target[2]) + "&"@ + pair_chars(target[3])))) by {
        reveal_with_fuel(join_pairs, 5);
        assert(target.drop_first() =~= seq![target[1], target[2], target[3]]);
        assert(target.drop_first().drop_first() =~= seq![target[2], target[3]]);
        assert(target.drop_first().drop_first().drop_first() =~= seq![target[3]]);
    }
}

/// Produces the signature for one upload: the parameters are canonicalized,
/// the shared secret is appended, and the SHA-1 digest of the result is
/// rendered as 40 lowercase hex characters. Deterministic: the result is a
/// function of the five arguments and nothing else.
pub fn generate_signature(
    asset_folder: &str,
    display_name: &str,
    public_id: &str,
    timestamp: u64,
    api_secret: &str,
) -> (r: String)
    ensures
        r@ == signature_of(asset_folder@, display_name@, public_id@, timestamp as nat, api_secret@),
        r@.len() == 40,
{
    let mut payload = String::from_str("display_name=");
    payload.append(display_name);
    payload.append("&folder=");
    payload.append(asset_folder);
    payload.append("&public_id=");
    payload.append(public_id);
    let ts = u64_to_decimal(timestamp);
    payload.append("&timestamp=");
    payload.append(ts.as_str());
    payload.append(api_secret);
    proof {
        lemma_signing_payload_form(
            asset_folder@,
            display_name@,
            public_id@,
            timestamp as nat,
            api_secret@,
        );
        assert(payload@ =~= signing_payload(
            asset_folder@,
            display_name@,
            public_id@,
            timestamp as nat,
            api_secret@,
        ));
    }
    let digest = sha1_of_str(payload.as_str());
    let r = bytes_to_hex(&digest);
    proof {
        lemma_hex_of_len(digest@);
    }
    r
}

/// Two hex digits for every byte.
pub proof fn lemma_hex_of_len(bytes: Seq<u8>)
    ensures
        hex_of(bytes).len() == 2 * bytes.len(),
    decreases bytes.len(),
{
    if bytes.len() > 0 {
        lemma_hex_of_len(bytes.drop_last());
    }
}

/// The digest is order-independent at the call site: signing over the four
/// parameters in any arrangement produces the identical signature, because
/// the canonical string fixes their order internally.
pub proof fn lemma_signature_order_independent(
    params: Seq<ParamPair>,
    folder: Seq<char>,
    display_name: Seq<char>,
    public_id: Seq<char>,
    timestamp: nat,
    secret: Seq<char>,
)
    requires
        params.to_multiset() == signing_params(
            folder,
            display_name,
            public_id,
            timestamp,
        ).to_multiset(),
    ensures
        hex_of(sha1_utf8_of(canonical_params(params) + secret)) == signature_of(
            folder,
            display_name,
            public_id,
            timestamp,
            secret,
        ),
{
    lemma_canonical_order_independent(
        params,
        signing_params(folder, display_name, public_id, timestamp),
    );
}

/// Signing is deterministic: equal inputs give equal digests.
pub proof fn lemma_signature_deterministic(
    folder1: Seq<char>,
    display_name1: Seq<char>,
    public_id1: Seq<char>,
    timestamp1: nat,
    secret1: Seq<char>,
    folder2: Seq<char>,
    display_name2: Seq<char>,
    public_id2: Seq<char>,
    timestamp2: nat,
    secret2: Seq<char>,
)
    requires
        folder1 == folder2,
        display_name1 == display_name2,
        public_id1 == public_id2,
        timestamp1 == timestamp2,
        secret1 == secret2,
    ensures
        signature_of(folder1, display_name1, public_id1, timestamp1, secret1) == signature_of(
            folder2,
            display_name2,
            public_id2,
            timestamp2,
            secret2,
        ),
{
}

} // verus!
