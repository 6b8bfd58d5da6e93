//! The noise that a state texture starts from.
use rand::RngExt;
use vstd::prelude::*;

verus! {

/// The generator of the current thread, `rand::rngs::ThreadRng`.
#[verifier::external_type_specification]
#[verifier::external_body]
pub struct ExThreadRng(rand::rngs::ThreadRng);

/// `rand::rng` hands out the generator of the current thread. Nothing is claimed of it. Its first
/// use in a thread panics where the system has no entropy to seed the generator with.
pub assume_specification[ rand::rng ]() -> rand::rngs::ThreadRng;

/// A byte from the generator, by `rand::RngExt::random`. Chance decides which, so nothing is
/// claimed of it. It panics where the generator is due to be seeded anew and the system has no
/// entropy for that.
#[verifier::external_body]
fn random_byte(rng: &mut rand::rngs::ThreadRng) -> u8 {
    rng.random()
}

/// Whether a generator can give the byte. Nothing more is known of it: it holds of what was
/// given.
pub closed spec fn gives(rng: rand::rngs::ThreadRng, byte: u8) -> bool {
    exists|r: &mut rand::rngs::ThreadRng|
        *r == rng && #[trigger] call_ensures(random_byte, (r,), byte)
}

/// A byte from a generator, and the generator to draw the next one from.
fn draw_byte(rng: rand::rngs::ThreadRng) -> (res: (u8, rand::rngs::ThreadRng))
    ensures
        gives(rng, res.0),
{
    let mut rng = rng;
    let draw = random_byte;
    let byte: u8 = draw(&mut rng);
    (byte, rng)
}

/// Whether drawing a byte from a generator can give `byte` and leave the generator as `after`.
pub closed spec fn drawn(
    before: rand::rngs::ThreadRng,
    byte: u8,
    after: rand::rngs::ThreadRng,
) -> bool {
    call_ensures(draw_byte, (before,), (byte, after))
}

/// Whether the bytes were drawn one after the other from a generator, which went through
/// `states`.
pub open spec fn drawn_in_turn(states: Seq<rand::rngs::ThreadRng>, noise: Seq<u8>) -> bool {
    &&& states.len() == noise.len() + 1
    &&& forall|i: int|
        0 <= i < noise.len() ==> drawn(states[i], #[trigger] noise[i], states[i + 1])
}

/// Three bytes of noise per pixel, with a fourth one for alpha after them: every pixel is opaque.
pub open spec fn opaque(noise: Seq<u8>) -> Seq<u8> {
    Seq::new(
        noise.len() / 3 * 4,
        |i: int|
            if i % 4 == 3 {
                255u8
            } else {
                noise[i / 4 * 3 + i % 4]
            },
    )
}

/// The number of bytes in a pixel.
pub const PIXEL_WIDTH: u32 = 4;

/// The contents of a texture, and how they are laid out.
#[derive(Debug)]
pub struct TextureUpload {
    pub data: Vec<u8>,
    pub bytes_per_row: u32,
    pub rows_per_image: u32,
}

/// Whether the bytes of a texture, and those of one of its rows, can be counted in 32 bits.
pub open spec fn fits(width: u32, height: u32) -> bool {
    width * height * PIXEL_WIDTH <= u32::MAX && width * PIXEL_WIDTH <= u32::MAX
}

/// Whether the bytes of a texture, and those of one of its rows, can be counted in 32 bits.
pub fn texture_fits(width: u32, height: u32) -> (res: bool)
    ensures
        res == fits(width, height),
{
    proof {
        assert(width * height <= 0xffff_ffff * 0xffff_ffff) by (nonlinear_arith)
            requires
                width <= 0xffff_ffff,
                height <= 0xffff_ffff,
        ;
    }
    let area: u64 = width as u64 * height as u64;
    area <= 0x3fff_ffff && width <= 0x3fff_ffff
}

/// Makes noise opaque, pixel by pixel.
pub fn opaque_pixels(noise: &Vec<u8>) -> (res: Vec<u8>)
    requires
        noise@.len() % 3 == 0,
        noise@.len() / 3 * 4 <= usize::MAX,
    ensures
        res@ == opaque(noise@),
{
    let mut res: Vec<u8> = Vec::new();
    let mut i: usize = 0;
    while i < noise.len()
        invariant
            i <= noise@.len(),
            i % 3 == 0,
            noise@.len() % 3 == 0,
            res@.len() == i / 3 * 4,
            forall|j: int| 0 <= j < res@.len() ==> res@[j] == opaque(noise@)[j],
        decreases noise@.len() - i,
    {
        let ghost n = res@.len() as int;
        res.push(noise[i]);
        res.push(noise[i + 1]);
        res.push(noise[i + 2]);
        res.push(255);
        assert(n % 4 == 0 && n / 4 * 3 == i);
        assert((n + 1) / 4 * 3 == i && (n + 2) / 4 * 3 == i);
        i = i + 3;
    }
    assert(res@ =~= opaque(noise@));
    res
}

/// Random contents for a texture of the given size. Whatever the generator gives, each pixel is
/// opaque, and there are as many as the texture has.
///
/// # Panics
///
/// Where the system's entropy fails: at the first use of the generator in a thread, or later,
/// when it is seeded anew, which happens several times over a large texture.
pub fn randomize_state_texture(width: u32, height: u32) -> (res: TextureUpload)
    requires
        fits(width, height),
    ensures
        res.bytes_per_row == width * PIXEL_WIDTH,
        res.rows_per_image == height,
        exists|noise: Seq<u8>|
            noise.len() == 3 * (width * height) && res.data@ == #[trigger] opaque(noise)
                && exists|states: Seq<rand::rngs::ThreadRng>| #[trigger] drawn_in_turn(states, noise),
{
    let mut rng = rand::rng();
    let ghost mut states: Seq<rand::rngs::ThreadRng> = seq![rng];
    let mut noise: Vec<u8> = Vec::new();
    let area: u32 = width * height;
    let count: usize = 3 * area as usize;
    while noise.len() < count
        invariant
            noise@.len() <= count,
            drawn_in_turn(states, noise@),
            states.last() == rng,
        decreases count - noise@.len(),
    {
        let draw = draw_byte;
        let (byte, after) = draw(rng);
        assert(drawn(states.last(), byte, after));
        noise.push(byte);
        rng = after;
        proof {
            states = states.push(rng);
        }
    }
    let data = opaque_pixels(&noise);
    TextureUpload { data, bytes_per_row: width * PIXEL_WIDTH, rows_per_image: height }
}

/// Opaque noise has four bytes per pixel, the fourth of which is full alpha, and the first
/// three of which are the noise: nothing of it is lost or moved to another pixel.
pub proof fn law_noise_is_kept_and_opaque(noise: Seq<u8>, pixel: int)
    requires
        noise.len() % 3 == 0,
        0 <= pixel < noise.len() / 3,
    ensures
        opaque(noise).len() == noise.len() / 3 * 4,
        opaque(noise)[4 * pixel] == noise[3 * pixel],
        opaque(noise)[4 * pixel + 1] == noise[3 * pixel + 1],
        opaque(noise)[4 * pixel + 2] == noise[3 * pixel + 2],
        opaque(noise)[4 * pixel + 3] == 255,
{
}

/// A texture fits where four bytes for each of its pixels, and for each of those in a row, can
/// be counted in 32 bits.
pub proof fn law_textures_fit_by_their_bytes(width: u32, height: u32, res: bool)
    requires
        call_ensures(texture_fits, (width, height), res),
    ensures
        res <==> 4 * (width * height) <= 0xffff_ffff && 4 * width <= 0xffff_ffff,
{
}

/// Making noise opaque keeps every byte of it, in its pixel and channel, and adds full alpha.
pub proof fn law_opaque_pixels_keep_the_noise(noise: &Vec<u8>, res: Vec<u8>)
    requires
        noise@.len() % 3 == 0,
        call_ensures(opaque_pixels, (noise,), res),
    ensures
        3 * res@.len() == 4 * noise@.len(),
        forall|i: int|
            0 <= i < noise@.len() ==> res@[4 * (i / 3) + i % 3] == #[trigger] noise@[i],
        forall|i: int| 0 <= i < res@.len() && i % 4 == 3 ==> #[trigger] res@[i] == 255,
{
    assert forall|i: int| 0 <= i < noise@.len() implies res@[4 * (i / 3) + i % 3]
        == #[trigger] noise@[i] by {
        let j = 4 * (i / 3) + i % 3;
        assert(j / 4 == i / 3 && j % 4 == i % 3);
    }
}

/// A texture starts with four bytes per pixel, row after row: three that were drawn from the
/// generator, one after the other and each of them used once, and full alpha.
pub proof fn law_texture_starts_from_drawn_noise(width: u32, height: u32, res: TextureUpload)
    requires
        call_ensures(randomize_state_texture, (width, height), res),
    ensures
        res.bytes_per_row == 4 * width,
        res.rows_per_image == height,
        res.data@.len() == 4 * (width * height),
        forall|i: int| 0 <= i < res.data@.len() && i % 4 == 3 ==> #[trigger] res.data@[i] == 255,
        exists|noise: Seq<u8>, states: Seq<rand::rngs::ThreadRng>| #[trigger]
            drawn_in_turn(states, noise) && noise.len() == 3 * (width * height) && forall|i: int|
                0 <= i < noise.len() ==> res.data@[4 * (i / 3) + i % 3] == #[trigger] noise[i],
{
    let area = width * height;
    assert(area >= 0) by (nonlinear_arith)
        requires
            area == width * height,
            width >= 0,
            height >= 0,
    ;
    let noise = choose|noise: Seq<u8>|
        noise.len() == 3 * area && res.data@ == #[trigger] opaque(noise)
            && exists|states: Seq<rand::rngs::ThreadRng>| #[trigger] drawn_in_turn(states, noise);
    let states = choose|states: Seq<rand::rngs::ThreadRng>| #[trigger]
        drawn_in_turn(states, noise);
    assert forall|i: int| 0 <= i < noise.len() implies res.data@[4 * (i / 3) + i % 3]
        == #[trigger] noise[i] by {
        let j = 4 * (i / 3) + i % 3;
        assert(j / 4 == i / 3 && j % 4 == i % 3);
    }
    assert(drawn_in_turn(states, noise));
}

/// A byte that was drawn is one that the generator gave.
pub proof fn law_drawn_bytes_come_from_the_generator(
    states: Seq<rand::rngs::ThreadRng>,
    noise: Seq<u8>,
    i: int,
)
    requires
        drawn_in_turn(states, noise),
        0 <= i < noise.len(),
    ensures
        gives(states[i], noise[i]),
{
    assert(drawn(states[i], noise[i], states[i + 1]));
}

} // verus!
