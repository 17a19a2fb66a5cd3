//! Subscription filters and their wire codec.
//!
//! A `SubscriptionRequest` is the declarative filter sent once on the
//! request sink: which update categories the caller wants, scoped to a
//! program allow-list. The factory builds the decentralized-finance
//! filter; the codec gives the filter a canonical byte form whose decoding
//! is proved to restore exactly the requested categories and allow-list.
//!
//! Wire form: one flags byte (bit 0 accounts, bit 1 transactions, bit 2
//! slots), the number of allow-listed programs as eight little-endian
//! bytes, then each program id as its length in eight little-endian bytes
//! followed by its bytes.

use vstd::prelude::*;

use vstd::bytes::{
    lemma_auto_spec_u64_to_from_le_bytes, spec_u64_from_le_bytes, spec_u64_to_le_bytes,
    u64_from_le_bytes, u64_to_le_bytes,
};
use vstd::string::StringSliceAdditionalSpecFns;

verus! {

/// A declarative subscription filter: the requested update categories and
/// the program allow-list the subscription is scoped to. Constructed once,
/// immutable, sent once.
pub struct SubscriptionRequest {
    /// Request account updates.
    pub accounts: bool,
    /// Request transaction updates.
    pub transactions: bool,
    /// Request slot updates.
    pub slots: bool,
    /// Allow-listed program ids; each entry is one program id as bytes.
    pub programs: Vec<Vec<u8>>,
}

/// Mathematical form of a subscription filter.
#[verifier::ext_equal]
pub struct SubscriptionRequestView {
    pub accounts: bool,
    pub transactions: bool,
    pub slots: bool,
    pub programs: Seq<Seq<u8>>,
}

impl View for SubscriptionRequest {
    type V = SubscriptionRequestView;

    open spec fn view(&self) -> SubscriptionRequestView {
        SubscriptionRequestView {
            accounts: self.accounts,
            transactions: self.transactions,
            slots: self.slots,
            programs: Seq::new(self.programs@.len(), |i: int| self.programs@[i]@),
        }
    }
}

/// The program ids of the decentralized-finance filter: the main automated
/// market maker, concentrated-liquidity and aggregator programs.
pub open spec fn spec_defi_program_ids() -> Seq<Seq<u8>> {
    seq![
        "675kPX9MHTjS2zt1qfr1NYHuzeLXfQM9H24wFSUt1Mp8".spec_bytes(),
        "whirLbMiicVdio4qvUfM5KAg6Ct8VwpYzGff3uctyCc".spec_bytes(),
        "JUP6LkbZbjS1jKKwapdHNy74zcZ3tLUZoi5QNyVTaV4".spec_bytes(),
    ]
}

/// The flags byte of a filter's encoding.
pub open spec fn spec_flags_byte(f: SubscriptionRequestView) -> u8 {
    ((if f.accounts {
        1int
    } else {
        0int
    }) + (if f.transactions {
        2int
    } else {
        0int
    }) + (if f.slots {
        4int
    } else {
        0int
    })) as u8
}

/// Encoding of one allow-listed program id: its length as eight
/// little-endian bytes, then its bytes.
pub open spec fn spec_encode_program(p: Seq<u8>) -> Seq<u8> {
    spec_u64_to_le_bytes(p.len() as u64) + p
}

/// Encoding of the whole allow-list, in order.
pub open spec fn spec_encode_programs(ps: Seq<Seq<u8>>) -> Seq<u8>
    decreases ps.len(),
{
    if ps.len() == 0 {
        Seq::empty()
    } else {
        spec_encode_program(ps[0]) + spec_encode_programs(ps.skip(1))
    }
}

/// Canonical encoding of a filter.
pub open spec fn spec_encode_request(f: SubscriptionRequestView) -> Seq<u8> {
    seq![spec_flags_byte(f)] + spec_u64_to_le_bytes(f.programs.len() as u64)
        + spec_encode_programs(f.programs)
}

/// Decoding of an allow-list of exactly `n` program ids from `b`, which
/// must be consumed completely.
pub open spec fn spec_decode_programs(b: Seq<u8>, n: nat) -> Option<Seq<Seq<u8>>>
    decreases n,
{
    if n == 0 {
        if b.len() == 0 {
            Option::Some(Seq::empty())
        } else {
            Option::None
        }
    } else if b.len() < 8 {
        Option::None
    } else {
        let len = spec_u64_from_le_bytes(b.subrange(0, 8)) as int;
        if b.len() - 8 < len {
            Option::None
        } else {
            let p = b.subrange(8, 8 + len);
            match spec_decode_programs(b.skip(8 + len), (n - 1) as nat) {
                Option::Some(ps) => Option::Some(seq![p] + ps),
                Option::None => Option::None,
            }
        }
    }
}

/// Decoding of a filter from its canonical byte form. Inputs that are not
/// an encoding of some filter decode to `None`.
pub open spec fn spec_decode_request(b: Seq<u8>) -> Option<SubscriptionRequestView> {
    if b.len() < 9 {
        Option::None
    } else {
        let flags = b[0];
        if flags >= 8 {
            Option::None
        } else {
            let count = spec_u64_from_le_bytes(b.subrange(1, 9));
            match spec_decode_programs(b.skip(9), count as nat) {
                Option::Some(ps) => Option::Some(
                    SubscriptionRequestView {
                        accounts: flags % 2 == 1,
                        transactions: flags / 2 % 2 == 1,
                        slots: flags / 4 % 2 == 1,
                        programs: ps,
                    },
                ),
                Option::None => Option::None,
            }
        }
    }
}

/// Factory for subscription filters.
pub struct Subscriptions;

impl Subscriptions {
    /// General factory: a filter for exactly the given categories and
    /// allow-list. Pure construction; nothing is sent.
    pub fn create_subscription(
        accounts: bool,
        transactions: bool,
        slots: bool,
        programs: Vec<Vec<u8>>,
    ) -> (r: SubscriptionRequest)
        ensures
            r.accounts == accounts,
            r.transactions == transactions,
            r.slots == slots,
            r@.programs == Seq::new(programs@.len(), |i: int| programs@[i]@),
    {
        SubscriptionRequest { accounts, transactions, slots, programs }
    }

    /// The decentralized-finance filter: all three categories, scoped to
    /// the well-known decentralized-finance programs. Pure and
    /// deterministic; nothing is sent.
    pub fn create_defi_subscription() -> (r: SubscriptionRequest)
        ensures
            r.accounts && r.transactions && r.slots,
            r@.programs == spec_defi_program_ids(),
    {
        let mut programs: Vec<Vec<u8>> = Vec::new();
        programs.push(bytes_of_str("675kPX9MHTjS2zt1qfr1NYHuzeLXfQM9H24wFSUt1Mp8"));
        programs.push(bytes_of_str("whirLbMiicVdio4qvUfM5KAg6Ct8VwpYzGff3uctyCc"));
        programs.push(bytes_of_str("JUP6LkbZbjS1jKKwapdHNy74zcZ3tLUZoi5QNyVTaV4"));
        let r = SubscriptionRequest { accounts: true, transactions: true, slots: true, programs };
        proof {
            assert(r@.programs =~= spec_defi_program_ids());
        }
        r
    }
}

/// Copies the bytes of a string.
fn bytes_of_str(s: &str) -> (r: Vec<u8>)
    ensures
        r@ == s.spec_bytes(),
{
    vstd::slice::slice_to_vec(s.as_bytes())
}

/// Reads eight little-endian bytes at `pos`.
fn read_u64_at(b: &Vec<u8>, pos: usize) -> (r: u64)
    requires
        pos + 8 <= b@.len(),
    ensures
        r == spec_u64_from_le_bytes(b@.subrange(pos as int, pos as int + 8)),
{
    let blen = b.len();
    let mut tmp: Vec<u8> = Vec::new();
    let mut k: usize = 0;
    while k < 8
        invariant
            k <= 8,
            blen == b@.len(),
            pos + 8 <= blen,
            tmp@ == b@.subrange(pos as int, pos as int + k as int),
        decreases 8 - k,
    {
        let byte = b[pos + k];
        tmp.push(byte);
        proof {
            assert(tmp@ =~= b@.subrange(pos as int, pos as int + k as int + 1));
        }
        k += 1;
    }
    u64_from_le_bytes(tmp.as_slice())
}

/// Appending one program id to an allow-list appends its encoding.
pub proof fn lemma_encode_programs_push(ps: Seq<Seq<u8>>, p: Seq<u8>)
    ensures
        spec_encode_programs(ps.push(p)) == spec_encode_programs(ps) + spec_encode_program(p),
    decreases ps.len(),
{
    if ps.len() == 0 {
        assert(ps.push(p).skip(1) =~= Seq::<Seq<u8>>::empty());
        assert(ps.push(p)[0] == p);
        assert(spec_encode_programs(ps.push(p).skip(1)) == Seq::<u8>::empty());
        assert(spec_encode_program(p) + Seq::<u8>::empty() =~= spec_encode_program(p));
        assert(spec_encode_programs(ps.push(p)) =~= spec_encode_program(p));
        assert(spec_encode_programs(ps) + spec_encode_program(p) =~= spec_encode_program(p));
    } else {
        assert(ps.push(p)[0] == ps[0]);
        assert(ps.push(p).skip(1) =~= ps.skip(1).push(p));
        lemma_encode_programs_push(ps.skip(1), p);
        assert(spec_encode_program(ps[0]) + (spec_encode_programs(ps.skip(1))
            + spec_encode_program(p)) =~= (spec_encode_program(ps[0]) + spec_encode_programs(
            ps.skip(1),
        )) + spec_encode_program(p));
    }
}

/// Encodes a filter into its canonical byte form.
pub fn encode_request(f: &SubscriptionRequest) -> (r: Vec<u8>)
    ensures
        r@ == spec_encode_request(f@),
{
    proof {
        lemma_auto_spec_u64_to_from_le_bytes();
    }
    let mut out: Vec<u8> = Vec::new();
    let flags: u8 = (if f.accounts {
        1
    } else {
        0
    }) + (if f.transactions {
        2
    } else {
        0
    }) + (if f.slots {
        4
    } else {
        0
    });
    out.push(flags);
    let mut countb = u64_to_le_bytes(f.programs.len() as u64);
    out.append(&mut countb);
    proof {
        assert(flags == spec_flags_byte(f@));
        assert(f@.programs.len() == f.programs@.len());
        assert(out@ =~= seq![spec_flags_byte(f@)] + spec_u64_to_le_bytes(
            f@.programs.len() as u64,
        ));
        assert(f@.programs.take(0) =~= Seq::<Seq<u8>>::empty());
    }
    let ghost header = out@;
    let mut i: usize = 0;
    while i < f.programs.len()
        invariant
            i <= f.programs.len(),
            header == seq![spec_flags_byte(f@)] + spec_u64_to_le_bytes(f@.programs.len() as u64),
            f@.programs.len() == f.programs@.len(),
            f@.programs == Seq::new(f.programs@.len(), |k: int| f.programs@[k]@),
            out@ == header + spec_encode_programs(f@.programs.take(i as int)),
        decreases f.programs.len() - i,
    {
        proof {
            lemma_auto_spec_u64_to_from_le_bytes();
        }
        let ghost pre_program = out@;
        let p = &f.programs[i];
        let mut lenb = u64_to_le_bytes(p.len() as u64);
        out.append(&mut lenb);
        let mut j: usize = 0;
        while j < p.len()
            invariant
                j <= p.len(),
                out@ == pre_program + spec_u64_to_le_bytes(p@.len() as u64) + p@.take(j as int),
            decreases p.len() - j,
        {
            let byte = p[j];
            out.push(byte);
            proof {
                assert(pre_program + spec_u64_to_le_bytes(p@.len() as u64) + p@.take(
                    j as int,
                ).push(p@[j as int]) =~= pre_program + spec_u64_to_le_bytes(p@.len() as u64)
                    + p@.take(j as int + 1));
            }
            j += 1;
        }
        proof {
            assert(p@.take(p@.len() as int) =~= p@);
            assert(p@ == f@.programs[i as int]);
            assert(out@ =~= pre_program + spec_encode_program(f@.programs[i as int]));
            lemma_encode_programs_push(f@.programs.take(i as int), f@.programs[i as int]);
            assert(f@.programs.take(i as int).push(f@.programs[i as int]) =~= f@.programs.take(
                i as int + 1,
            ));
            assert(pre_program + spec_encode_program(f@.programs[i as int]) =~= header
                + spec_encode_programs(f@.programs.take(i as int + 1)));
        }
        i += 1;
    }
    proof {
        assert(f@.programs.take(f.programs@.len() as int) =~= f@.programs);
        assert(out@ =~= spec_encode_request(f@));
    }
    out
}

/// Decodes a filter from its canonical byte form; `None` exactly on
/// inputs that are not an encoding of a filter.
pub fn decode_request(b: &Vec<u8>) -> (r: Option<SubscriptionRequest>)
    ensures
        r matches Some(f) ==> spec_decode_request(b@) == Some(f@),
        r is None ==> spec_decode_request(b@) is None,
{
    proof {
        lemma_auto_spec_u64_to_from_le_bytes();
    }
    if b.len() < 9 {
        return None;
    }
    let flags = b[0];
    if flags >= 8 {
        return None;
    }
    let accounts = flags % 2 == 1;
    let transactions = flags / 2 % 2 == 1;
    let slots = flags / 4 % 2 == 1;
    let count = read_u64_at(b, 1);
    proof {
        assert(b@.subrange(1, 9) == b@.subrange(1int, 1int + 8));
    }
    let blen = b.len();
    let mut programs: Vec<Vec<u8>> = Vec::new();
    let mut pos: usize = 9;
    let mut parsed: u64 = 0;
    proof {
        assert(b@.skip(9).skip(0) =~= b@.skip(9));
    }
    while parsed < count
        invariant
            blen == b@.len(),
            9 <= pos <= blen,
            parsed <= count,
            flags == b@[0],
            flags < 8,
            count == spec_u64_from_le_bytes(b@.subrange(1, 9)),
            spec_decode_programs(b@.skip(pos as int), (count - parsed) as nat) matches Some(ps)
                ==> spec_decode_programs(b@.skip(9), count as nat) == Some(
                Seq::new(programs@.len(), |k: int| programs@[k]@) + ps,
            ),
            spec_decode_programs(b@.skip(pos as int), (count - parsed) as nat) is None
                ==> spec_decode_programs(b@.skip(9), count as nat) is None,
        decreases count - parsed,
    {
        proof {
            lemma_auto_spec_u64_to_from_le_bytes();
        }
        let ghost tail = b@.skip(pos as int);
        let ghost n = (count - parsed) as nat;
        if b.len() - pos < 8 {
            proof {
                assert(tail.len() < 8);
                assert(spec_decode_programs(tail, n) is None);
                assert(spec_decode_programs(b@.skip(9), count as nat) is None);
                assert(spec_decode_request(b@) is None);
            }
            return None;
        }
        let plen_u64 = read_u64_at(b, pos);
        proof {
            assert(tail.subrange(0, 8) =~= b@.subrange(pos as int, pos as int + 8));
        }
        let remaining: u64 = ((b.len() - pos) - 8) as u64;
        if remaining < plen_u64 {
            proof {
                assert(tail.len() - 8 < plen_u64 as int);
                assert(spec_decode_programs(tail, n) is None);
                assert(spec_decode_programs(b@.skip(9), count as nat) is None);
                assert(spec_decode_request(b@) is None);
            }
            return None;
        }
        let plen = plen_u64 as usize;
        let mut p: Vec<u8> = Vec::new();
        let mut j: usize = 0;
        while j < plen
            invariant
                j <= plen,
                blen == b@.len(),
                pos + 8 + plen <= blen,
                p@ == b@.subrange(pos as int + 8, pos as int + 8 + j as int),
            decreases plen - j,
        {
            let byte = b[pos + 8 + j];
            p.push(byte);
            proof {
                assert(p@ =~= b@.subrange(pos as int + 8, pos as int + 8 + j as int + 1));
            }
            j += 1;
        }
        let ghost old_views = Seq::new(programs@.len(), |k: int| programs@[k]@);
        proof {
            assert(tail.subrange(8, 8 + plen as int) =~= b@.subrange(
                pos as int + 8,
                pos as int + 8 + plen as int,
            ));
            assert(p@ == tail.subrange(8, 8 + plen as int));
            assert(tail.skip(8 + plen as int) =~= b@.skip(pos as int + 8 + plen as int));
        }
        programs.push(p);
        pos = pos + 8 + plen;
        parsed = parsed + 1;
        proof {
            let new_views = Seq::new(programs@.len(), |k: int| programs@[k]@);
            assert(new_views =~= old_views.push(tail.subrange(8, 8 + plen as int)));
            match spec_decode_programs(b@.skip(pos as int), (count - parsed) as nat) {
                Option::Some(ps) => {
                    assert(spec_decode_programs(tail, n) == Some(
                        seq![tail.subrange(8, 8 + plen as int)] + ps,
                    ));
                    assert(old_views + (seq![tail.subrange(8, 8 + plen as int)] + ps)
                        =~= new_views + ps);
                },
                Option::None => {},
            }
        }
    }
    if pos != b.len() {
        proof {
            assert(b@.skip(pos as int).len() > 0);
            assert(spec_decode_programs(b@.skip(pos as int), 0) is None);
            assert(spec_decode_programs(b@.skip(9), count as nat) is None);
            assert(spec_decode_request(b@) is None);
        }
        return None;
    }
    let r = SubscriptionRequest { accounts, transactions, slots, programs };
    proof {
        assert(b@.skip(pos as int).len() == 0);
        assert(spec_decode_programs(b@.skip(pos as int), 0) == Some(Seq::<Seq<u8>>::empty()));
        let views = Seq::new(programs@.len(), |k: int| programs@[k]@);
        assert(views + Seq::<Seq<u8>>::empty() =~= views);
        assert(spec_decode_request(b@) matches Some(g) && g =~= r@);
    }
    Some(r)
}

/// Round trip of the subscription codec: decoding a filter's encoding
/// restores the same requested categories and the same program
/// allow-list. The length bounds are forced by the eight-byte length
/// fields of the wire form.
pub proof fn lemma_request_round_trip(f: SubscriptionRequestView)
    requires
        f.programs.len() <= u64::MAX,
        forall|i: int| 0 <= i < f.programs.len() ==> #[trigger] f.programs[i].len() <= u64::MAX,
    ensures
        spec_decode_request(spec_encode_request(f)) == Some(f),
{
    lemma_auto_spec_u64_to_from_le_bytes();
    let fb = spec_flags_byte(f);
    assert(fb < 8);
    assert((fb % 2 == 1) == f.accounts);
    assert((fb / 2 % 2 == 1) == f.transactions);
    assert((fb / 4 % 2 == 1) == f.slots);
    let b = spec_encode_request(f);
    let countb = spec_u64_to_le_bytes(f.programs.len() as u64);
    assert(b[0] == fb);
    assert(b.subrange(1, 9) =~= countb);
    assert(b.skip(9) =~= spec_encode_programs(f.programs));
    lemma_programs_round_trip(f.programs);
    let decoded = spec_decode_request(b);
    assert(decoded matches Some(g) && g =~= f);
}

/// Round trip of the allow-list codec.
pub proof fn lemma_programs_round_trip(ps: Seq<Seq<u8>>)
    requires
        ps.len() <= u64::MAX,
        forall|i: int| 0 <= i < ps.len() ==> #[trigger] ps[i].len() <= u64::MAX,
    ensures
        spec_decode_programs(spec_encode_programs(ps), ps.len()) == Some(ps),
    decreases ps.len(),
{
    lemma_auto_spec_u64_to_from_le_bytes();
    if ps.len() == 0 {
        assert(spec_encode_programs(ps).len() == 0);
        assert(spec_decode_programs(spec_encode_programs(ps), 0) == Some(Seq::<Seq<u8>>::empty()));
        assert(ps =~= Seq::<Seq<u8>>::empty());
    } else {
        let p0 = ps[0];
        let rest = ps.skip(1);
        let lenb = spec_u64_to_le_bytes(p0.len() as u64);
        let b = spec_encode_programs(ps);
        assert(b =~= (lenb + p0) + spec_encode_programs(rest));
        assert(b.len() >= 8);
        assert(b.subrange(0, 8) =~= lenb);
        assert(spec_u64_from_le_bytes(lenb) == p0.len() as u64);
        assert(b.subrange(8, 8 + p0.len() as int) =~= p0);
        assert(b.skip(8 + p0.len() as int) =~= spec_encode_programs(rest));
        assert(forall|i: int| 0 <= i < rest.len() ==> #[trigger] rest[i].len() <= u64::MAX);
        lemma_programs_round_trip(rest);
        assert(seq![p0] + rest =~= ps);
    }
}

} // verus!
