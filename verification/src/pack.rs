use vstd::prelude::*;
use vstd::arithmetic::div_mod::lemma_fundamental_div_mod;

use crate::ramp::GammaRamp;
use crate::ramp::ramp_sample;

verus! {

/// Low byte of a 16-bit sample.
pub open spec fn lo_byte(v: u16) -> u8 {
    (v % 256) as u8
}

/// High byte of a 16-bit sample.
pub open spec fn hi_byte(v: u16) -> u8 {
    (v / 256) as u8
}

/// Little-endian serialisation of one channel table: two bytes per sample.
pub open spec fn channel_bytes(s: Seq<u16>) -> Seq<u8>
    decreases s.len(),
{
    if s.len() == 0 {
        Seq::empty()
    } else {
        channel_bytes(s.drop_last()).push(lo_byte(s.last())).push(hi_byte(s.last()))
    }
}

/// The samples of a whole ramp channel with `size` entries at exponent `g`.
pub open spec fn sample_seq(size: nat, g: nat) -> Seq<u16> {
    Seq::new(size, |i: int| ramp_sample(i as nat, size, g) as u16)
}

/// The full wire table for `size` samples at exponent `g` thousandths:
/// three identical channel blocks, red then green then blue.
pub open spec fn ramp_bytes(size: nat, g: nat) -> Seq<u8> {
    channel_bytes(sample_seq(size, g)) + channel_bytes(sample_seq(size, g)) + channel_bytes(
        sample_seq(size, g),
    )
}

/// Each channel block is twice as long as its sample table.
pub proof fn lemma_channel_bytes_len(s: Seq<u16>)
    ensures
        channel_bytes(s).len() == 2 * s.len(),
    decreases s.len(),
{
    if s.len() > 0 {
        lemma_channel_bytes_len(s.drop_last());
    }
}

fn append_channel(out: &mut Vec<u8>, ch: &Vec<u16>)
    ensures
        final(out)@ == old(out)@ + channel_bytes(ch@),
{
    let mut i: usize = 0;
    proof {
        assert(ch@.take(0) =~= Seq::<u16>::empty());
        assert(out@ =~= out@ + channel_bytes(ch@.take(0)));
    }
    while i < ch.len()
        invariant
            i <= ch.len(),
            out@ == old(out)@ + channel_bytes(ch@.take(i as int)),
        decreases ch.len() - i,
    {
        let v = ch[i];
        out.push((v % 256) as u8);
        out.push((v / 256) as u8);
        proof {
            let t = ch@.take(i as int + 1);
            assert(t.drop_last() =~= ch@.take(i as int));
            assert(t.last() == ch@[i as int]);
            assert(out@ =~= old(out)@ + channel_bytes(ch@.take(i as int + 1)));
        }
        i = i + 1;
    }
    proof {
        assert(ch@.take(ch@.len() as int) =~= ch@);
    }
}

/// Serialises the three channels into the compositor's gamma table layout:
/// the red block, then green, then blue, each sample as two little-endian
/// bytes.
pub fn pack_ramp(r: &GammaRamp) -> (out: Vec<u8>)
    ensures
        out@ == channel_bytes(r.red@) + channel_bytes(r.green@) + channel_bytes(r.blue@),
        out@.len() == 2 * (r.red@.len() + r.green@.len() + r.blue@.len()),
{
    let mut out: Vec<u8> = Vec::new();
    append_channel(&mut out, &r.red);
    append_channel(&mut out, &r.green);
    append_channel(&mut out, &r.blue);
    proof {
        assert(out@ =~= channel_bytes(r.red@) + channel_bytes(r.green@) + channel_bytes(r.blue@));
        lemma_channel_bytes_len(r.red@);
        lemma_channel_bytes_len(r.green@);
        lemma_channel_bytes_len(r.blue@);
    }
    out
}

/// The two little-endian bytes reconstruct their sample: the low byte plus
/// 256 times the high byte equals the serialised value.
pub proof fn lemma_bytes_recover(v: u16)
    ensures
        lo_byte(v) + 256 * hi_byte(v) == v,
{
    lemma_fundamental_div_mod(v as int, 256);
}

/// Sample `i` of a channel stands at bytes `2 i` and `2 i + 1` of its
/// serialised block, low byte first.
pub proof fn lemma_channel_bytes_index(s: Seq<u16>, i: int)
    requires
        0 <= i < s.len(),
    ensures
        channel_bytes(s).len() == 2 * s.len(),
        channel_bytes(s)[2 * i] == lo_byte(s[i]),
        channel_bytes(s)[2 * i + 1] == hi_byte(s[i]),
    decreases s.len(),
{
    lemma_channel_bytes_len(s);
    lemma_channel_bytes_len(s.drop_last());
    if i == s.len() - 1 {
        assert(s.last() == s[i]);
    } else {
        lemma_channel_bytes_index(s.drop_last(), i);
        assert(s.drop_last()[i] == s[i]);
    }
}

} // verus!
