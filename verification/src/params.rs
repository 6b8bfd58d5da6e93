//! The uniforms of the shaders: the state that commands change and time eases, and the block of
//! memory that a frame hands to the graphics card.
use crate::single::{Single, HALF_BITS, ONE_BITS, ZERO_BITS};
use vstd::prelude::*;

verus! {

/// What the shaders are told of besides time and resolution.
#[derive(Clone, Copy, Debug)]
pub struct UniformState {
    pub time_scale: Single,
    pub c1: [Single; 4],
    pub c2: [Single; 4],
    pub c3: [Single; 4],
    pub c4: [Single; 4],
    pub mouse: [Single; 2],
    pub monitor: usize,
}

/// Four channels of a colour, by their bits.
pub open spec fn rgba_bits(r: u32, g: u32, b: u32, a: u32) -> Seq<Single> {
    seq![
        crate::single::single(r),
        crate::single::single(g),
        crate::single::single(b),
        crate::single::single(a),
    ]
}

impl Default for UniformState {
    /// Red first colour, the others blue; the mouse rests in the middle.
    fn default() -> (res: UniformState)
        ensures
            res.time_scale.bits == ONE_BITS,
            res.c1@ == rgba_bits(ONE_BITS, ZERO_BITS, ZERO_BITS, ONE_BITS),
            res.c2@ == rgba_bits(ZERO_BITS, ZERO_BITS, ONE_BITS, ONE_BITS),
            res.c3@ == rgba_bits(ZERO_BITS, ZERO_BITS, ONE_BITS, ONE_BITS),
            res.c4@ == rgba_bits(ZERO_BITS, ZERO_BITS, ONE_BITS, ONE_BITS),
            res.mouse@ == seq![
                crate::single::single(HALF_BITS),
                crate::single::single(HALF_BITS),
            ],
            res.monitor == 0,
    {
        let zero = Single { bits: ZERO_BITS };
        let half = Single { bits: HALF_BITS };
        let one = Single { bits: ONE_BITS };
        UniformState {
            time_scale: one,
            c1: [one, zero, zero, one],
            c2: [zero, zero, one, one],
            c3: [zero, zero, one, one],
            c4: [zero, zero, one, one],
            mouse: [half, half],
            monitor: 0,
        }
    }
}

/// Whether `res` holds, channel by channel, what `blend` makes of `this` and `that`.
pub open spec fn channels_mixed<A, F: Fn(A, Single, Single) -> Single>(
    blend: F,
    amount: A,
    this: [Single; 4],
    that: [Single; 4],
    res: [Single; 4],
) -> bool {
    forall|i: int|
        0 <= i < 4 ==> call_ensures(blend, (amount, this@[i], that@[i]), #[trigger] res@[i])
}

/// Whether `res` is `this` with its time scale and colours blended towards `that`. The mouse and
/// the monitor stay those of `this`.
pub open spec fn mixed<A, F: Fn(A, Single, Single) -> Single>(
    blend: F,
    amount: A,
    this: UniformState,
    that: UniformState,
    res: UniformState,
) -> bool {
    &&& call_ensures(blend, (amount, this.time_scale, that.time_scale), res.time_scale)
    &&& channels_mixed(blend, amount, this.c1, that.c1, res.c1)
    &&& channels_mixed(blend, amount, this.c2, that.c2, res.c2)
    &&& channels_mixed(blend, amount, this.c3, that.c3, res.c3)
    &&& channels_mixed(blend, amount, this.c4, that.c4, res.c4)
    &&& res.mouse == this.mouse
    &&& res.monitor == this.monitor
}

/// Blends four channels one by one.
pub fn mix<A: Copy, F: Fn(A, Single, Single) -> Single>(
    this: [Single; 4],
    that: [Single; 4],
    amount: A,
    blend: &F,
) -> (res: [Single; 4])
    requires
        forall|a: Single, b: Single| #[trigger] call_requires(*blend, (amount, a, b)),
    ensures
        channels_mixed(*blend, amount, this, that, res),
{
    [
        blend(amount, this[0], that[0]),
        blend(amount, this[1], that[1]),
        blend(amount, this[2], that[2]),
        blend(amount, this[3], that[3]),
    ]
}

impl UniformState {
    /// Blends this state by some amount towards another one. How two numbers are blended, and
    /// what an amount is, the caller says.
    pub fn mix<A: Copy, F: Fn(A, Single, Single) -> Single>(
        &self,
        other: &Self,
        amount: A,
        blend: &F,
    ) -> (res: Self)
        requires
            forall|a: Single, b: Single| #[trigger] call_requires(*blend, (amount, a, b)),
        ensures
            mixed(*blend, amount, *self, *other, res),
    {
        UniformState {
            time_scale: blend(amount, self.time_scale, other.time_scale),
            c1: self::mix(self.c1, other.c1, amount, blend),
            c2: self::mix(self.c2, other.c2, amount, blend),
            c3: self::mix(self.c3, other.c3, amount, blend),
            c4: self::mix(self.c4, other.c4, amount, blend),
            mouse: self.mouse,
            monitor: self.monitor,
        }
    }
}

/// Each channel of a mix is made from the same channel of the two colours and from nothing else:
/// whatever `blend` guarantees of a result and the two numbers it was made from, such as lying
/// between them, holds of each channel.
pub proof fn law_channels_mix_one_by_one<A, F: Fn(A, Single, Single) -> Single>(
    blend: F,
    amount: A,
    this: [Single; 4],
    that: [Single; 4],
    res: [Single; 4],
    guarantee: spec_fn(Single, Single, Single) -> bool,
)
    requires
        channels_mixed(blend, amount, this, that, res),
        forall|a: Single, b: Single, r: Single| #[trigger]
            call_ensures(blend, (amount, a, b), r) ==> guarantee(a, b, r),
    ensures
        forall|i: int| 0 <= i < 4 ==> guarantee(this@[i], that@[i], #[trigger] res@[i]),
{
}

/// Mixing four channels by an amount at which `blend` keeps the first number gives the first
/// colour, and by one at which it takes the second number gives the second colour.
pub proof fn law_channel_mix_endpoints<A, F: Fn(A, Single, Single) -> Single>(
    blend: F,
    amount: A,
    this: [Single; 4],
    that: [Single; 4],
    res: [Single; 4],
)
    requires
        channels_mixed(blend, amount, this, that, res),
    ensures
        (forall|a: Single, b: Single, r: Single| #[trigger]
            call_ensures(blend, (amount, a, b), r) ==> r == a) ==> res@ == this@,
        (forall|a: Single, b: Single, r: Single| #[trigger]
            call_ensures(blend, (amount, a, b), r) ==> r == b) ==> res@ == that@,
{
    if forall|a: Single, b: Single, r: Single| #[trigger]
        call_ensures(blend, (amount, a, b), r) ==> r == a {
        assert(res@ =~= this@);
    }
    if forall|a: Single, b: Single, r: Single| #[trigger]
        call_ensures(blend, (amount, a, b), r) ==> r == b {
        assert(res@ =~= that@);
    }
}

/// The mouse and the monitor of a mix are those of the first state, whatever the amount and the
/// blend.
pub proof fn law_mix_keeps_mouse_and_monitor<A, F: Fn(A, Single, Single) -> Single>(
    blend: F,
    amount: A,
    this: UniformState,
    that: UniformState,
    res: UniformState,
)
    requires
        mixed(blend, amount, this, that, res),
    ensures
        res.mouse == this.mouse,
        res.monitor == this.monitor,
{
}

/// Where blending by an amount keeps where it comes from, it leaves the whole state as it is.
pub proof fn law_empty_blend_stays<A, F: Fn(A, Single, Single) -> Single>(
    blend: F,
    amount: A,
    this: UniformState,
    that: UniformState,
    res: UniformState,
)
    requires
        mixed(blend, amount, this, that, res),
        forall|a: Single, b: Single, r: Single| #[trigger]
            call_ensures(blend, (amount, a, b), r) ==> r == a,
    ensures
        res.time_scale == this.time_scale,
        res.c1@ == this.c1@,
        res.c2@ == this.c2@,
        res.c3@ == this.c3@,
        res.c4@ == this.c4@,
        res.mouse == this.mouse,
        res.monitor == this.monitor,
{
}

/// Where blending by an amount ignores where it comes from, it takes the time scale and the
/// colours to the target in one step.
pub proof fn law_full_blend_reaches_target<A, F: Fn(A, Single, Single) -> Single>(
    blend: F,
    amount: A,
    this: UniformState,
    that: UniformState,
    res: UniformState,
)
    requires
        mixed(blend, amount, this, that, res),
        forall|a: Single, b: Single, r: Single| #[trigger]
            call_ensures(blend, (amount, a, b), r) ==> r == b,
    ensures
        res.time_scale == that.time_scale,
        res.c1@ == that.c1@,
        res.c2@ == that.c2@,
        res.c3@ == that.c3@,
        res.c4@ == that.c4@,
{
}

/// A state that has reached its target stays there, under every blend that takes two equal
/// numbers to that number.
pub proof fn law_target_is_a_fixed_point<A, F: Fn(A, Single, Single) -> Single>(
    blend: F,
    amount: A,
    this: UniformState,
    res: UniformState,
)
    requires
        mixed(blend, amount, this, this, res),
        forall|a: Single, r: Single| #[trigger] call_ensures(blend, (amount, a, a), r) ==> r == a,
    ensures
        res.time_scale == this.time_scale,
        res.c1@ == this.c1@,
        res.c2@ == this.c2@,
        res.c3@ == this.c3@,
        res.c4@ == this.c4@,
        res.mouse == this.mouse,
        res.monitor == this.monitor,
{
}

/// The uniform block of a frame.
#[derive(Clone, Copy, Debug)]
pub struct Params {
    pub resolution: [Single; 2],
    pub time: Single,
    pub time_scale: Single,
    pub c1: [Single; 4],
    pub c2: [Single; 4],
    pub c3: [Single; 4],
    pub c4: [Single; 4],
    pub mouse: [Single; 2],
    pub mouse_active: Single,
}

/// The number of words in a uniform block.
pub const PARAMS_WORDS: usize = 23;

/// The number of bytes in a uniform block.
pub const PARAMS_SIZE: usize = 92;

/// The bits of numbers in a row.
pub open spec fn bits_of(numbers: Seq<Single>) -> Seq<u32> {
    numbers.map_values(|s: Single| s.bits)
}

/// The `k`-th byte of a word, counted from the least significant one.
pub open spec fn word_byte(word: u32, k: int) -> u8 {
    if k == 0 {
        (word % 0x100) as u8
    } else if k == 1 {
        (word / 0x100 % 0x100) as u8
    } else if k == 2 {
        (word / 0x1_0000 % 0x100) as u8
    } else {
        (word / 0x100_0000) as u8
    }
}

/// Words in a row, each with its least significant byte first.
pub open spec fn little_endian(words: Seq<u32>) -> Seq<u8> {
    Seq::new(4 * words.len(), |i: int| word_byte(words[i / 4], i % 4))
}

/// Words in a row, each with its most significant byte first.
pub open spec fn big_endian(words: Seq<u32>) -> Seq<u8> {
    Seq::new(4 * words.len(), |i: int| word_byte(words[i / 4], 3 - i % 4))
}

/// The bytes of the words as they lie in memory, by `bytemuck::bytes_of` on an array of words.
/// The machine decides the order of the bytes within a word, and it is the same for all of
/// them: that is all the contract claims.
#[verifier::external_body]
fn bytes_of_words(words: &[u32; 23]) -> (res: Vec<u8>)
    ensures
        res@ == little_endian(words@) || res@ == big_endian(words@),
{
    bytemuck::bytes_of(words).to_vec()
}

impl Params {
    /// The words of the block in the order in which the shaders declare them.
    pub open spec fn layout(self) -> Seq<u32> {
        bits_of(self.resolution@) + seq![self.time.bits, self.time_scale.bits] + bits_of(self.c1@)
            + bits_of(self.c2@) + bits_of(self.c3@) + bits_of(self.c4@) + bits_of(self.mouse@)
            + seq![self.mouse_active.bits]
    }

    /// The words of the block in the order in which the shaders declare them.
    pub fn words(&self) -> (res: [u32; 23])
        ensures
            res@ == self.layout(),
    {
        let res = [
            self.resolution[0].bits,
            self.resolution[1].bits,
            self.time.bits,
            self.time_scale.bits,
            self.c1[0].bits,
            self.c1[1].bits,
            self.c1[2].bits,
            self.c1[3].bits,
            self.c2[0].bits,
            self.c2[1].bits,
            self.c2[2].bits,
            self.c2[3].bits,
            self.c3[0].bits,
            self.c3[1].bits,
            self.c3[2].bits,
            self.c3[3].bits,
            self.c4[0].bits,
            self.c4[1].bits,
            self.c4[2].bits,
            self.c4[3].bits,
            self.mouse[0].bits,
            self.mouse[1].bits,
            self.mouse_active.bits,
        ];
        assert(res@ =~= self.layout());
        res
    }

    /// The block as it is written to the graphics card, in the byte order of the machine.
    pub fn to_bytes(&self) -> (res: Vec<u8>)
        ensures
            res@ == little_endian(self.layout()) || res@ == big_endian(self.layout()),
            res@.len() == PARAMS_SIZE,
    {
        bytes_of_words(&self.words())
    }
}

/// A word is the sum of its bytes, each in its place.
proof fn lemma_word_of_bytes(word: u32)
    ensures
        word == word_byte(word, 0) + 0x100 * word_byte(word, 1) + 0x1_0000 * word_byte(word, 2)
            + 0x100_0000 * word_byte(word, 3),
{
}

/// In either byte order, two blocks with the same bytes hold the same numbers: nothing is lost on
/// the way to the graphics card.
pub proof fn law_bytes_determine_params(a: Params, b: Params)
    requires
        little_endian(a.layout()) == little_endian(b.layout()) || big_endian(a.layout())
            == big_endian(b.layout()),
    ensures
        a.layout() == b.layout(),
{
    let (x, y) = (a.layout(), b.layout());
    assert(x.len() == PARAMS_WORDS && y.len() == PARAMS_WORDS);
    assert forall|i: int| 0 <= i < x.len() implies x[i] == y[i] by {
        lemma_word_of_bytes(x[i]);
        lemma_word_of_bytes(y[i]);
        if little_endian(x) == little_endian(y) {
            assert forall|k: int| 0 <= k < 4 implies #[trigger] word_byte(x[i], k) == word_byte(
                y[i],
                k,
            ) by {
                assert(little_endian(x)[4 * i + k] == little_endian(y)[4 * i + k]);
            }
        } else {
            assert forall|k: int| 0 <= k < 4 implies #[trigger] word_byte(x[i], k) == word_byte(
                y[i],
                k,
            ) by {
                assert(big_endian(x)[4 * i + 3 - k] == big_endian(y)[4 * i + 3 - k]);
            }
        }
    }
    assert(x =~= y);
}

/// Each channel of four is blended from the same channel of the two colours, by the amount that
/// was asked for.
pub proof fn law_mixing_blends_channel_with_channel<A: Copy, F: Fn(A, Single, Single) -> Single>(
    this: [Single; 4],
    that: [Single; 4],
    amount: A,
    blend: &F,
    res: [Single; 4],
)
    requires
        call_ensures(self::mix::<A, F>, (this, that, amount, blend), res),
    ensures
        call_ensures(*blend, (amount, this@[0], that@[0]), res@[0]),
        call_ensures(*blend, (amount, this@[1], that@[1]), res@[1]),
        call_ensures(*blend, (amount, this@[2], that@[2]), res@[2]),
        call_ensures(*blend, (amount, this@[3], that@[3]), res@[3]),
{
}

/// Whether each colour of `res`, and its time scale, is what `blend` makes of its namesakes in
/// `this` and `that` by the given amount.
pub open spec fn namesakes_blended<A, F: Fn(A, Single, Single) -> Single>(
    blend: F,
    amount: A,
    this: UniformState,
    that: UniformState,
    res: UniformState,
) -> bool {
    &&& call_ensures(blend, (amount, this.time_scale, that.time_scale), res.time_scale)
    &&& forall|k: int|
        0 <= k < 4 ==> {
            &&& call_ensures(blend, (amount, this.c1@[k], that.c1@[k]), #[trigger] res.c1@[k])
            &&& call_ensures(blend, (amount, this.c2@[k], that.c2@[k]), res.c2@[k])
            &&& call_ensures(blend, (amount, this.c3@[k], that.c3@[k]), res.c3@[k])
            &&& call_ensures(blend, (amount, this.c4@[k], that.c4@[k]), res.c4@[k])
        }
}

/// Each colour of a mix, and its time scale, is blended from its namesakes, by the amount that
/// was asked for; the mouse and the monitor stay.
pub proof fn law_mixing_blends_namesakes<A: Copy, F: Fn(A, Single, Single) -> Single>(
    this: &UniformState,
    that: &UniformState,
    amount: A,
    blend: &F,
    res: UniformState,
)
    requires
        call_ensures(UniformState::mix::<A, F>, (this, that, amount, blend), res),
    ensures
        namesakes_blended(*blend, amount, *this, *that, res),
        res.mouse == this.mouse,
        res.monitor == this.monitor,
{
}

/// Whether words in a row are the numbers of a uniform block, each in the place where the
/// shaders look for it.
pub open spec fn are_words_of(params: Params, words: Seq<u32>) -> bool {
    &&& words.len() == 23
    &&& words[0] == params.resolution@[0].bits && words[1] == params.resolution@[1].bits
    &&& words[2] == params.time.bits
    &&& words[3] == params.time_scale.bits
    &&& forall|k: int| 4 <= k < 8 ==> #[trigger] words[k] == params.c1@[k - 4].bits
    &&& forall|k: int| 8 <= k < 12 ==> #[trigger] words[k] == params.c2@[k - 8].bits
    &&& forall|k: int| 12 <= k < 16 ==> #[trigger] words[k] == params.c3@[k - 12].bits
    &&& forall|k: int| 16 <= k < 20 ==> #[trigger] words[k] == params.c4@[k - 16].bits
    &&& words[20] == params.mouse@[0].bits && words[21] == params.mouse@[1].bits
    &&& words[22] == params.mouse_active.bits
}

/// Every number of a block stands in its place among the words.
pub proof fn law_words_hold_every_number(params: &Params, res: [u32; 23])
    requires
        call_ensures(Params::words, (params,), res),
    ensures
        are_words_of(*params, res@),
{
}

/// Four bytes of a block, put together in one byte order for the whole block, are the word that
/// stands in their place.
pub proof fn law_bytes_put_together_are_the_words(params: &Params, words: Seq<u32>, res: Vec<u8>)
    requires
        call_ensures(Params::to_bytes, (params,), res),
        are_words_of(*params, words),
    ensures
        res@.len() == 92,
        (forall|k: int|
            0 <= k < 23 ==> #[trigger] words[k] == res@[4 * k] + 0x100 * res@[4 * k + 1]
                + 0x1_0000 * res@[4 * k + 2] + 0x100_0000 * res@[4 * k + 3]) || (forall|k: int|
            0 <= k < 23 ==> #[trigger] words[k] == res@[4 * k + 3] + 0x100 * res@[4 * k + 2]
                + 0x1_0000 * res@[4 * k + 1] + 0x100_0000 * res@[4 * k]),
{
    assert(words =~= params.layout());
    assert forall|k: int| 0 <= k < 23 implies ({
        &&& little_endian(words)[4 * k] == word_byte(#[trigger] words[k], 0)
        &&& little_endian(words)[4 * k + 1] == word_byte(words[k], 1)
        &&& little_endian(words)[4 * k + 2] == word_byte(words[k], 2)
        &&& little_endian(words)[4 * k + 3] == word_byte(words[k], 3)
        &&& big_endian(words)[4 * k] == word_byte(words[k], 3)
        &&& big_endian(words)[4 * k + 1] == word_byte(words[k], 2)
        &&& big_endian(words)[4 * k + 2] == word_byte(words[k], 1)
        &&& big_endian(words)[4 * k + 3] == word_byte(words[k], 0)
    }) by {}
    if res@ == little_endian(words) {
        assert forall|k: int| 0 <= k < 23 implies #[trigger] words[k] == res@[4 * k] + 0x100
            * res@[4 * k + 1] + 0x1_0000 * res@[4 * k + 2] + 0x100_0000 * res@[4 * k + 3] by {
            lemma_word_of_bytes(words[k]);
        }
    } else {
        assert forall|k: int| 0 <= k < 23 implies #[trigger] words[k] == res@[4 * k + 3] + 0x100
            * res@[4 * k + 2] + 0x1_0000 * res@[4 * k + 1] + 0x100_0000 * res@[4 * k] by {
            lemma_word_of_bytes(words[k]);
        }
    }
}

} // verus!
