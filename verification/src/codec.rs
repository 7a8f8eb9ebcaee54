//! The seed codec and the configuration owner on the presentation side.
//!
//! A seed is either empty (configuration drawn from the system entropy
//! source), plain text (hashed to a 64-bit value that seeds a deterministic
//! derivation — the same text always reproduces the same configuration), or
//! `'@'` followed by base64: an exact byte-for-byte restore of a previously
//! exported configuration.
//!
//! The binary layout is little-endian: world radius (two bytes), class
//! count (one byte), one two-byte particle count per class slot, then for
//! every matrix entry in row-major order one signed byte of force and one
//! of radius. Missing fields on decode fall back to their defaults; the
//! import never fails partway.

use vstd::prelude::*;
use vstd::string::StringExecFns;

use crate::math::{abs, clamp_i64, int_root, lemma_pow_base_le, pow_spec, pow_u128,
    root_spec, spec_clamp, spec_min};
use crate::rng::{entropy_in, lemma_rng_after_succ, rng_after, seed_hash, seed_hash_spec,
    sm_range_spec, SeededRng};
use crate::state::{ConfigView, Param, SharedState, SimulationState, UiEvent};
use crate::{DEFAULT_WORLD_RADIUS, MAX_CLASSES, MAX_PARTICLE_COUNT, PARAM_MAX, PARAM_MIN,
    RANDOM_MAX_PARTICLE_COUNT, RANDOM_MIN_PARTICLE_COUNT};

verus! {

/// How many seeds the history keeps.
pub const MAX_HISTORY_LEN: usize = 10;

/// A value clamped into `[0, 65535]`, as its low and high byte.
pub open spec fn lo16(v: int) -> u8 {
    (spec_clamp(v, 0, 65535) % 256) as u8
}

pub open spec fn hi16(v: int) -> u8 {
    (spec_clamp(v, 0, 65535) / 256) as u8
}

/// A value clamped into the signed byte range, as its two's-complement
/// byte.
pub open spec fn byte_of_i64(v: int) -> u8 {
    let c = spec_clamp(v, PARAM_MIN as int, PARAM_MAX as int);
    if c >= 0 {
        c as u8
    } else {
        (c + 256) as u8
    }
}

/// The signed value a two's-complement byte stands for.
pub open spec fn i64_of_byte(b: u8) -> int {
    if b < 128 {
        b as int
    } else {
        b as int - 256
    }
}

/// The two little-endian bytes of a 16-bit field.
pub open spec fn le16_of(v: int) -> Seq<u8> {
    seq![lo16(v), hi16(v)]
}

/// The particle-count fields of the first `n` class slots.
pub open spec fn counts_bytes(sh: SharedState, n: int) -> Seq<u8>
    decreases n,
{
    if n <= 0 {
        Seq::empty()
    } else {
        counts_bytes(sh, n - 1) + le16_of(sh.particle_counts@[n - 1] as int)
    }
}

/// The force/radius byte pairs of the first `n` matrix entries.
pub open spec fn params_bytes(sh: SharedState, n: int) -> Seq<u8>
    decreases n,
{
    if n <= 0 {
        Seq::empty()
    } else {
        params_bytes(sh, n - 1) + seq![
            byte_of_i64(sh.param_matrix.params@[n - 1].force as int),
            byte_of_i64(sh.param_matrix.params@[n - 1].radius as int),
        ]
    }
}

pub proof fn lemma_counts_bytes_len(sh: SharedState, n: int)
    requires
        n >= 0,
    ensures
        counts_bytes(sh, n).len() == 2 * n,
    decreases n,
{
    if n > 0 {
        lemma_counts_bytes_len(sh, n - 1);
    }
}

pub proof fn lemma_params_bytes_len(sh: SharedState, n: int)
    requires
        n >= 0,
    ensures
        params_bytes(sh, n).len() == 2 * n,
    decreases n,
{
    if n > 0 {
        lemma_params_bytes_len(sh, n - 1);
    }
}

/// The export blob always has the same, fixed length.
pub proof fn lemma_export_bytes_len(sh: SharedState)
    ensures
        export_bytes_spec(sh).len() == 147,
{
    lemma_counts_bytes_len(sh, MAX_CLASSES as int);
    lemma_params_bytes_len(sh, (MAX_CLASSES * MAX_CLASSES) as int);
}

/// The full export layout of a configuration.
pub open spec fn export_bytes_spec(sh: SharedState) -> Seq<u8> {
    le16_of(sh.world_radius as int) + seq![sh.class_count as u8] + counts_bytes(
        sh,
        MAX_CLASSES as int,
    ) + params_bytes(sh, (MAX_CLASSES * MAX_CLASSES) as int)
}

/// A 16-bit little-endian field at `off`, or the default where the blob is
/// too short.
pub open spec fn read_u16_or(bytes: Seq<u8>, off: int, dflt: int) -> int {
    if off + 2 <= bytes.len() {
        bytes[off] + 256 * bytes[off + 1]
    } else {
        dflt
    }
}

/// A one-byte field at `off`, or the default where the blob is too short.
pub open spec fn read_u8_or(bytes: Seq<u8>, off: int, dflt: int) -> int {
    if off + 1 <= bytes.len() {
        bytes[off] as int
    } else {
        dflt
    }
}

/// A signed byte field at `off`, or the default where the blob is too
/// short.
pub open spec fn read_i8_or(bytes: Seq<u8>, off: int, dflt: int) -> int {
    if off + 1 <= bytes.len() {
        i64_of_byte(bytes[off])
    } else {
        dflt
    }
}

/// What an import makes of a configuration: every field read from its fixed
/// offset, missing fields falling back to their defaults, counts and the
/// class count defensively clamped into the engine's legal ranges. The run
/// state is untouched.
pub open spec fn import_cfg_spec(v: ConfigView, bytes: Seq<u8>) -> ConfigView {
    ConfigView {
        state: v.state,
        world_radius: read_u16_or(bytes, 0, DEFAULT_WORLD_RADIUS as int),
        class_count: spec_min(read_u8_or(bytes, 2, MAX_CLASSES as int), MAX_CLASSES as int),
        counts: Seq::new(
            MAX_CLASSES as nat,
            |c: int| spec_min(read_u16_or(bytes, 3 + 2 * c, 0), MAX_PARTICLE_COUNT as int),
        ),
        params: Seq::new(
            (MAX_CLASSES * MAX_CLASSES) as nat,
            |k: int| (Param {
                force: read_i8_or(bytes, 19 + 2 * k, 0) as i64,
                radius: read_i8_or(bytes, 20 + 2 * k, 0) as i64,
            }),
        ),
    }
}

/// The characters base64 encoding assigns to a byte string (standard
/// alphabet, with padding).
pub uninterp spec fn b64_of(bs: Seq<u8>) -> Seq<char>;

/// Relies on base64's `encode`, standard alphabet with padding. The length
/// precondition keeps far away from the input sizes where `encode` aborts
/// computing its buffer size.
#[verifier::external_body]
fn b64_encode(bytes: &Vec<u8>) -> (r: String)
    requires
        bytes@.len() <= 10000,
    ensures
        r@ == b64_of(bytes@),
{
    base64::encode(bytes.as_slice())
}

/// Relies on base64's `decode`: it inverts `encode` on every encoded
/// string. Nothing is assumed about other inputs: they may decode to some
/// byte string or fail.
#[verifier::external_body]
fn b64_decode_chars(cs: &Vec<char>) -> (r: Option<Vec<u8>>)
    ensures
        forall|bs: Seq<u8>| cs@ == #[trigger] b64_of(bs) ==> r is Some && r->0@ == bs,
{
    let s: String = cs.iter().collect();
    base64::decode(s.as_bytes()).ok()
}

/// Relies on str's `chars`: it yields exactly the characters that form the
/// string's view.
#[verifier::external_body]
fn str_chars(s: &str) -> (r: Vec<char>)
    ensures
        r@ == s@,
{
    s.chars().collect()
}

/// Appends the two little-endian bytes of `v` (clamped into 16-bit range).
fn push_u16_le(out: &mut Vec<u8>, v: i64)
    ensures
        final(out)@ == old(out)@ + le16_of(v as int),
{
    let c: i64 = clamp_i64(v, 0, 65535);
    let lo: u8 = (c % 256) as u8;
    let hi: u8 = (c / 256) as u8;
    out.push(lo);
    out.push(hi);
    proof {
        assert(final(out)@ =~= old(out)@ + le16_of(v as int));
    }
}

/// Appends the two's-complement byte of `v` (clamped into signed byte
/// range).
fn push_i8(out: &mut Vec<u8>, v: i64)
    ensures
        final(out)@ == old(out)@ + seq![byte_of_i64(v as int)],
{
    let c: i64 = clamp_i64(v, PARAM_MIN, PARAM_MAX);
    let b: u8 = if c >= 0 {
        c as u8
    } else {
        (c + 256) as u8
    };
    out.push(b);
    proof {
        assert(final(out)@ =~= old(out)@ + seq![byte_of_i64(v as int)]);
    }
}

/// A 16-bit little-endian field at `off`, or the default.
fn read_u16_le_or(bytes: &Vec<u8>, off: usize, dflt: i64) -> (r: i64)
    requires
        off < 1000000,
        0 <= dflt <= 65535,
    ensures
        r == read_u16_or(bytes@, off as int, dflt as int),
        0 <= r <= 65535,
{
    if off + 2 <= bytes.len() {
        (bytes[off] as i64) + 256 * (bytes[off + 1] as i64)
    } else {
        dflt
    }
}

/// A signed byte field at `off`, or the default.
fn read_i8_le_or(bytes: &Vec<u8>, off: usize, dflt: i64) -> (r: i64)
    requires
        off < 1000000,
        -128 <= dflt <= 127,
    ensures
        r == read_i8_or(bytes@, off as int, dflt as int),
        -128 <= r <= 127,
{
    if off + 1 <= bytes.len() {
        let b = bytes[off];
        if b < 128 {
            b as i64
        } else {
            (b as i64) - 256
        }
    } else {
        dflt
    }
}

pub proof fn lemma_pow_4096_5()
    ensures
        pow_spec(4096, 5) == 1152921504606846976,
{
    reveal_with_fuel(pow_spec, 6);
    assert(pow_spec(4096, 0) == 1);
    assert(pow_spec(4096, 1) == 4096);
    assert(pow_spec(4096, 2) == 16777216);
    assert(pow_spec(4096, 3) == 68719476736);
    assert(pow_spec(4096, 4) == 281474976710656);
}

pub proof fn lemma_pow_128_11()
    ensures
        pow_spec(128, 11) == 151115727451828646838272,
        pow_spec(128, 10) == 1180591620717411303424,
{
    reveal_with_fuel(pow_spec, 12);
    assert(pow_spec(128, 0) == 1);
    assert(pow_spec(128, 1) == 128);
    assert(pow_spec(128, 2) == 16384);
    assert(pow_spec(128, 3) == 2097152);
    assert(pow_spec(128, 4) == 268435456);
    assert(pow_spec(128, 5) == 34359738368);
    assert(pow_spec(128, 6) == 4398046511104);
    assert(pow_spec(128, 7) == 562949953421312);
    assert(pow_spec(128, 8) == 72057594037927936);
    assert(pow_spec(128, 9) == 9223372036854775808);
}

/// The reshaping of a uniform force draw `v` in `[0, 20000]`: recentered to
/// `[-10000, 10000]` and compressed toward the extremes (the magnitude
/// becomes `(|d| / 100) ^ (4/5) * 100 / 100`, an integer in `[0, 39]`), so
/// near-zero forces are rarer and the emergent patterns richer.
pub open spec fn reshape_force(v: int) -> int {
    let d = v - 10000;
    let a = abs(d) as nat;
    let m = (root_spec(a * a * a * a * 100, 5) / 100) as int;
    if d >= 0 {
        m
    } else {
        -m
    }
}

/// The reshaping of a uniform radius draw `u` in `[30, 100]`: compressed by
/// the exponent `10/11` (an integer in `[22, 65]`).
pub open spec fn reshape_radius(u: int) -> int {
    root_spec(pow_spec(u as nat, 10), 11) as int
}

fn reshape_force_exec(v: i64) -> (r: i64)
    requires
        0 <= v <= 20000,
    ensures
        r == reshape_force(v as int),
        abs(r as int) <= 41,
{
    let d: i64 = v - 10000;
    let a: u128 = if d >= 0 {
        d as u128
    } else {
        (-d) as u128
    };
    proof {
        lemma_pow_4096_5();
        assert(a * a <= 100000000 && a * a * a <= 1000000000000 && a * a * a * a
            <= 10000000000000000 && a * a * a * a * 100 < 1152921504606846976)
            by (nonlinear_arith)
            requires
                0 <= a <= 10000,
        ;
    }
    let x: u128 = a * a * a * a * 100;
    let root = int_root(x, 5, 4096);
    proof {
        if root >= 4096 {
            lemma_pow_base_le(4096, root as nat, 5);
        }
    }
    let m: i64 = (root / 100) as i64;
    if d >= 0 {
        m
    } else {
        -m
    }
}

fn reshape_radius_exec(u: i64) -> (r: i64)
    requires
        30 <= u <= 100,
    ensures
        r == reshape_radius(u as int),
        0 <= r < 128,
{
    proof {
        lemma_pow_128_11();
        lemma_pow_base_le(u as nat, 128, 10);
        assert(pow_spec(128, 11) == 128 * pow_spec(128, 10));
    }
    let x: u128 = pow_u128(u as u128, 10);
    let root = int_root(x, 11, 128);
    proof {
        if root >= 128 {
            lemma_pow_base_le(128, root as nat, 11);
        }
    }
    root as i64
}

/// Position of the count draw for class `i` in the seeded draw stream
/// (one count and two values per matrix entry of each earlier class).
pub open spec fn count_draw_index(cc: int, i: int) -> int {
    i * (1 + 2 * cc)
}

/// Position of the force draw for entry `(i, j)`.
pub open spec fn force_draw_index(cc: int, i: int, j: int) -> int {
    i * (1 + 2 * cc) + 1 + 2 * j
}

/// Position of the radius draw for entry `(i, j)`.
pub open spec fn radius_draw_index(cc: int, i: int, j: int) -> int {
    i * (1 + 2 * cc) + 2 + 2 * j
}

/// The configuration a seeded derivation produces: for every active class
/// a particle count drawn from the practical range and, per matrix entry
/// within the active square, a reshaped force and radius — all drawn from
/// the deterministic generator in a fixed order, so the same seed always
/// yields the same configuration. Everything else is untouched.
pub open spec fn derive_cfg_spec(v: ConfigView, seed: u64) -> ConfigView {
    let cc = v.class_count;
    ConfigView {
        state: v.state,
        world_radius: v.world_radius,
        class_count: cc,
        counts: Seq::new(
            MAX_CLASSES as nat,
            |i: int|
                if 0 <= i < cc {
                    sm_range_spec(
                        rng_after(seed, count_draw_index(cc, i) as nat),
                        RANDOM_MIN_PARTICLE_COUNT as u64,
                        (RANDOM_MAX_PARTICLE_COUNT - 1) as u64,
                    ) as int
                } else {
                    v.counts[i]
                },
        ),
        params: Seq::new(
            (MAX_CLASSES * MAX_CLASSES) as nat,
            |k: int|
                if k / (MAX_CLASSES as int) < cc && k % (MAX_CLASSES as int) < cc {
                    (Param {
                        force: reshape_force(
                            sm_range_spec(
                                rng_after(
                                    seed,
                                    force_draw_index(
                                        cc,
                                        k / (MAX_CLASSES as int),
                                        k % (MAX_CLASSES as int),
                                    ) as nat,
                                ),
                                0,
                                20000,
                            ) as int,
                        ) as i64,
                        radius: reshape_radius(
                            sm_range_spec(
                                rng_after(
                                    seed,
                                    radius_draw_index(
                                        cc,
                                        k / (MAX_CLASSES as int),
                                        k % (MAX_CLASSES as int),
                                    ) as nat,
                                ),
                                30,
                                100,
                            ) as int,
                        ) as i64,
                    })
                } else {
                    v.params[k]
                },
        ),
    }
}

/// The parameter the seeded derivation assigns to matrix entry `(i, j)`.
pub open spec fn derived_param(seed: u64, cc: int, i: int, j: int) -> Param {
    Param {
        force: reshape_force(
            sm_range_spec(rng_after(seed, force_draw_index(cc, i, j) as nat), 0, 20000) as int,
        ) as i64,
        radius: reshape_radius(
            sm_range_spec(rng_after(seed, radius_draw_index(cc, i, j) as nat), 30, 100) as int,
        ) as i64,
    }
}

/// Arithmetic of the draw-stream positions.
pub proof fn lemma_draw_indexes(cc: int, i: int, j: int)
    requires
        0 <= cc,
        0 <= i,
        0 <= j,
    ensures
        count_draw_index(cc, i) >= 0,
        force_draw_index(cc, i, j) == count_draw_index(cc, i) + 1 + 2 * j,
        radius_draw_index(cc, i, j) == force_draw_index(cc, i, j) + 1,
        force_draw_index(cc, i, j + 1) == radius_draw_index(cc, i, j) + 1,
        count_draw_index(cc, i + 1) == count_draw_index(cc, i) + 1 + 2 * cc,
{
    assert(i * (1 + 2 * cc) >= 0) by (nonlinear_arith)
        requires
            i >= 0,
            cc >= 0,
    ;
    assert((i + 1) * (1 + 2 * cc) == i * (1 + 2 * cc) + 1 + 2 * cc) by (nonlinear_arith);
}

/// A row-major index decomposes into its row and column.
pub proof fn lemma_rowmajor(i: int, j: int)
    requires
        0 <= i < MAX_CLASSES,
        0 <= j < MAX_CLASSES,
    ensures
        (i * (MAX_CLASSES as int) + j) / (MAX_CLASSES as int) == i,
        (i * (MAX_CLASSES as int) + j) % (MAX_CLASSES as int) == j,
{
    vstd::arithmetic::div_mod::lemma_fundamental_div_mod_converse(
        i * (MAX_CLASSES as int) + j,
        MAX_CLASSES as int,
        i,
        j,
    );
}

/// What holds of a configuration drawn from the entropy source, whatever
/// values came back: counts within the practical range, parameters within
/// the byte range, everything outside the active square untouched.
pub open spec fn randomized_rel(v0: ConfigView, v1: ConfigView) -> bool {
    &&& v1.state == v0.state
    &&& v1.world_radius == v0.world_radius
    &&& v1.class_count == v0.class_count
    &&& v1.counts.len() == v0.counts.len()
    &&& v1.params.len() == v0.params.len()
    &&& forall|i: int|
        0 <= i < v0.class_count ==> RANDOM_MIN_PARTICLE_COUNT <= #[trigger] v1.counts[i]
            < RANDOM_MAX_PARTICLE_COUNT
    &&& forall|i: int|
        v0.class_count <= i < v0.counts.len() ==> #[trigger] v1.counts[i] == v0.counts[i]
    &&& forall|k: int|
        0 <= k < v0.params.len() && k / (MAX_CLASSES as int) < v0.class_count && k % (
        MAX_CLASSES as int) < v0.class_count ==> abs((#[trigger] v1.params[k]).force as int)
            <= 41 && 0 <= v1.params[k].radius < 128
    &&& forall|k: int|
        0 <= k < v0.params.len() && !(k / (MAX_CLASSES as int) < v0.class_count && k % (
        MAX_CLASSES as int) < v0.class_count) ==> #[trigger] v1.params[k] == v0.params[k]
}

/// The presentation side's owner of the configuration: the shared state it
/// edits, the seed text that mirrors it, and a short history of applied
/// seeds.
pub struct Smarticles {
    pub shared: SharedState,
    pub seed: String,
    pub history: Vec<String>,
    pub selected_history_entry: usize,
}

impl Smarticles {
    pub open spec fn wf(self) -> bool {
        self.shared.wf()
    }

    /// A fresh owner: the default configuration and an empty seed.
    pub fn new() -> (r: Smarticles)
        ensures
            r.wf(),
            r.shared.is_default(),
            r.seed@ == Seq::<char>::empty(),
            r.history@ == Seq::<String>::empty(),
            r.selected_history_entry == 0,
    {
        Smarticles {
            shared: SharedState::new(),
            seed: String::new(),
            history: Vec::new(),
            selected_history_entry: 0,
        }
    }

    /// Serializes the current configuration into the export layout.
    fn export_bytes(&self) -> (r: Vec<u8>)
        requires
            self.wf(),
        ensures
            r@ == export_bytes_spec(self.shared),
    {
        let mut out: Vec<u8> = Vec::new();
        push_u16_le(&mut out, self.shared.world_radius);
        out.push(self.shared.class_count as u8);
        let ghost head: Seq<u8> = out@;
        let mut c: usize = 0;
        while c < MAX_CLASSES
            invariant
                self.wf(),
                c <= MAX_CLASSES,
                out@ == head + counts_bytes(self.shared, c as int),
                head == le16_of(self.shared.world_radius as int) + seq![
                    self.shared.class_count as u8,
                ],
            decreases MAX_CLASSES - c,
        {
            let count = self.shared.particle_counts[c];
            push_u16_le(&mut out, count as i64);
            proof {
                assert(out@ =~= head + counts_bytes(self.shared, (c + 1) as int));
                assert(le16_of(spec_clamp(count as int, 0, 65535)) == le16_of(count as int));
            }
            c = c + 1;
        }
        let ghost mid: Seq<u8> = out@;
        let mut k: usize = 0;
        while k < MAX_CLASSES * MAX_CLASSES
            invariant
                self.wf(),
                k <= MAX_CLASSES * MAX_CLASSES,
                out@ == mid + params_bytes(self.shared, k as int),
                mid == head + counts_bytes(self.shared, MAX_CLASSES as int),
                head == le16_of(self.shared.world_radius as int) + seq![
                    self.shared.class_count as u8,
                ],
            decreases MAX_CLASSES * MAX_CLASSES - k,
        {
            let p = self.shared.param_matrix.params[k];
            push_i8(&mut out, p.force);
            push_i8(&mut out, p.radius);
            proof {
                assert(out@ =~= mid + params_bytes(self.shared, (k + 1) as int));
            }
            k = k + 1;
        }
        proof {
            assert(out@ =~= export_bytes_spec(self.shared));
        }
        out
    }

    /// Serializes the configuration and wraps it as an `'@'`-prefixed
    /// base64 seed string.
    pub fn export(&self) -> (r: String)
        requires
            self.wf(),
        ensures
            r@ == seq!['@'] + b64_of(export_bytes_spec(self.shared)),
    {
        let bytes = self.export_bytes();
        proof {
            lemma_export_bytes_len(self.shared);
        }
        let b64 = b64_encode(&bytes);
        let mut out = String::from_str("@");
        proof {
            reveal_strlit("@");
        }
        out.append(b64.as_str());
        proof {
            assert(out@ =~= seq!['@'] + b64_of(export_bytes_spec(self.shared)));
        }
        out
    }

    /// Restores a configuration from an export blob; short blobs fall back
    /// to defaults field by field.
    pub fn import(&mut self, bytes: &Vec<u8>)
        requires
            old(self).wf(),
        ensures
            final(self).wf(),
            final(self).shared.cfg() == import_cfg_spec(old(self).shared.cfg(), bytes@),
            final(self).seed == old(self).seed,
            final(self).history == old(self).history,
            final(self).selected_history_entry == old(self).selected_history_entry,
    {
        let ghost v0: ConfigView = self.shared.cfg();
        let world = read_u16_le_or(bytes, 0, DEFAULT_WORLD_RADIUS);
        self.shared.world_radius = world;
        let cc = read_u16_le_or(bytes, 2, 0);
        let cc_raw: i64 = if 2 < bytes.len() {
            bytes[2] as i64
        } else {
            MAX_CLASSES as i64
        };
        let cc_clamped: usize = if cc_raw > MAX_CLASSES as i64 {
            MAX_CLASSES
        } else {
            cc_raw as usize
        };
        self.shared.class_count = cc_clamped;
        let mut c: usize = 0;
        while c < MAX_CLASSES
            invariant
                c <= MAX_CLASSES,
                self.shared.particle_counts@.len() == MAX_CLASSES,
                self.shared.param_matrix.wf(),
                forall|a: int|
                    0 <= a < c ==> #[trigger] self.shared.particle_counts@[a] as int
                        == spec_min(
                        read_u16_or(bytes@, 3 + 2 * a, 0),
                        MAX_PARTICLE_COUNT as int,
                    ),
                forall|a: int|
                    c <= a < MAX_CLASSES ==> #[trigger] self.shared.particle_counts@[a]
                        <= MAX_PARTICLE_COUNT,
                self.shared.world_radius == read_u16_or(
                    bytes@,
                    0,
                    DEFAULT_WORLD_RADIUS as int,
                ),
                self.shared.class_count as int == spec_min(
                    read_u8_or(bytes@, 2, MAX_CLASSES as int),
                    MAX_CLASSES as int,
                ),
                self.shared.simulation_state == old(self).shared.simulation_state,
                self.shared.param_matrix == old(self).shared.param_matrix,
                self.seed == old(self).seed,
                self.history == old(self).history,
                self.selected_history_entry == old(self).selected_history_entry,
            decreases MAX_CLASSES - c,
        {
            let raw = read_u16_le_or(bytes, 3 + 2 * c, 0);
            let clamped: usize = if raw > MAX_PARTICLE_COUNT as i64 {
                MAX_PARTICLE_COUNT
            } else {
                raw as usize
            };
            self.shared.particle_counts[c] = clamped;
            c = c + 1;
        }
        let mut k: usize = 0;
        while k < MAX_CLASSES * MAX_CLASSES
            invariant
                k <= MAX_CLASSES * MAX_CLASSES,
                self.shared.particle_counts@.len() == MAX_CLASSES,
                self.shared.param_matrix.params@.len() == MAX_CLASSES * MAX_CLASSES,
                forall|a: int|
                    0 <= a < MAX_CLASSES ==> #[trigger] self.shared.particle_counts@[a] as int
                        == spec_min(
                        read_u16_or(bytes@, 3 + 2 * a, 0),
                        MAX_PARTICLE_COUNT as int,
                    ),
                forall|i: int|
                    0 <= i < k ==> #[trigger] self.shared.param_matrix.params@[i] == (Param {
                        force: read_i8_or(bytes@, 19 + 2 * i, 0) as i64,
                        radius: read_i8_or(bytes@, 20 + 2 * i, 0) as i64,
                    }),
                forall|i: int|
                    k <= i < MAX_CLASSES * MAX_CLASSES
                        ==> (#[trigger] self.shared.param_matrix.params@[i]).wf(),
                self.shared.world_radius == read_u16_or(
                    bytes@,
                    0,
                    DEFAULT_WORLD_RADIUS as int,
                ),
                self.shared.class_count as int == spec_min(
                    read_u8_or(bytes@, 2, MAX_CLASSES as int),
                    MAX_CLASSES as int,
                ),
                self.shared.simulation_state == old(self).shared.simulation_state,
                self.seed == old(self).seed,
                self.history == old(self).history,
                self.selected_history_entry == old(self).selected_history_entry,
            decreases MAX_CLASSES * MAX_CLASSES - k,
        {
            let force = read_i8_le_or(bytes, 19 + 2 * k, 0);
            let radius = read_i8_le_or(bytes, 20 + 2 * k, 0);
            self.shared.param_matrix.params[k] = Param { force, radius };
            k = k + 1;
        }
        proof {
            assert(self.shared.cfg().counts =~= import_cfg_spec(v0, bytes@).counts);
            assert(self.shared.cfg().params =~= import_cfg_spec(v0, bytes@).params);
            assert(self.shared.cfg() =~= import_cfg_spec(v0, bytes@));
        }
    }

    /// Appends the current seed to the history, dropping the oldest entry
    /// beyond the capacity, and selects the new entry.
    pub fn update_history(&mut self)
        requires
            old(self).wf(),
        ensures
            final(self).wf(),
            final(self).shared == old(self).shared,
            final(self).seed == old(self).seed,
            old(self).history@.len() < MAX_HISTORY_LEN ==> final(self).history@ == old(
                self,
            ).history@.push(old(self).seed),
            old(self).history@.len() >= MAX_HISTORY_LEN ==> final(self).history@ == old(
                self,
            ).history@.push(old(self).seed).drop_first(),
            final(self).selected_history_entry + 1 == final(self).history@.len(),
    {
        let s = self.seed.clone();
        self.history.push(s);
        if self.history.len() > MAX_HISTORY_LEN {
            let ghost h: Seq<String> = self.history@;
            self.history.remove(0);
            proof {
                assert(self.history@ =~= h.drop_first());
            }
        }
        self.selected_history_entry = self.history.len() - 1;
    }

    /// Derives a configuration from a 64-bit seed with the deterministic
    /// generator: per active class one particle count, then per entry of
    /// the active matrix square one reshaped force and radius, in a fixed
    /// draw order.
    fn derive_config(&mut self, seed_val: u64)
        requires
            old(self).wf(),
        ensures
            final(self).wf(),
            final(self).shared.cfg() == derive_cfg_spec(old(self).shared.cfg(), seed_val),
            final(self).seed == old(self).seed,
            final(self).history == old(self).history,
            final(self).selected_history_entry == old(self).selected_history_entry,
    {
        let ghost v0: ConfigView = self.shared.cfg();
        let mut rng = SeededRng::seed_from_u64(seed_val);
        let cc = self.shared.class_count;
        let mut i: usize = 0;
        proof {
            assert(count_draw_index(cc as int, 0) == 0) by (nonlinear_arith);
        }
        while i < cc
            invariant
                self.wf(),
                cc == self.shared.class_count,
                cc == v0.class_count,
                cc <= MAX_CLASSES,
                i <= cc,
                v0.counts.len() == MAX_CLASSES,
                v0.params.len() == MAX_CLASSES * MAX_CLASSES,
                self.shared.simulation_state == old(self).shared.simulation_state,
                self.shared.world_radius == old(self).shared.world_radius,
                v0 == old(self).shared.cfg(),
                self.seed == old(self).seed,
                self.history == old(self).history,
                self.selected_history_entry == old(self).selected_history_entry,
                rng.state == rng_after(seed_val, count_draw_index(cc as int, i as int) as nat),
                forall|a: int|
                    0 <= a < i ==> #[trigger] self.shared.particle_counts@[a] as int
                        == sm_range_spec(
                        rng_after(seed_val, count_draw_index(cc as int, a) as nat),
                        RANDOM_MIN_PARTICLE_COUNT as u64,
                        (RANDOM_MAX_PARTICLE_COUNT - 1) as u64,
                    ) as int,
                forall|a: int|
                    i <= a < MAX_CLASSES ==> #[trigger] self.shared.particle_counts@[a] as int
                        == v0.counts[a],
                forall|k: int|
                    0 <= k < MAX_CLASSES * MAX_CLASSES && k / (MAX_CLASSES as int) < i && k % (
                    MAX_CLASSES as int) < cc
                        ==> #[trigger] self.shared.param_matrix.params@[k] == derived_param(
                        seed_val,
                        cc as int,
                        k / (MAX_CLASSES as int),
                        k % (MAX_CLASSES as int),
                    ),
                forall|k: int|
                    0 <= k < MAX_CLASSES * MAX_CLASSES && !(k / (MAX_CLASSES as int) < i && k
                        % (MAX_CLASSES as int) < cc)
                        ==> #[trigger] self.shared.param_matrix.params@[k] == v0.params[k],
            decreases cc - i,
        {
            proof {
                lemma_draw_indexes(cc as int, i as int, 0);
            }
            let cnt = rng.next_in(
                RANDOM_MIN_PARTICLE_COUNT as u64,
                (RANDOM_MAX_PARTICLE_COUNT - 1) as u64,
            );
            let ghost counts_prev = self.shared.particle_counts@;
            self.shared.particle_counts[i] = cnt as usize;
            proof {
                assert forall|a: int| 0 <= a < i + 1 implies
                    #[trigger] self.shared.particle_counts@[a] as int == sm_range_spec(
                    rng_after(seed_val, count_draw_index(cc as int, a) as nat),
                    RANDOM_MIN_PARTICLE_COUNT as u64,
                    (RANDOM_MAX_PARTICLE_COUNT - 1) as u64,
                ) as int by {
                    if a < i {
                        assert(counts_prev[a] == self.shared.particle_counts@[a]);
                    }
                }
                lemma_rng_after_succ(seed_val, count_draw_index(cc as int, i as int) as nat);
            }
            let mut j: usize = 0;
            while j < cc
                invariant
                    self.wf(),
                    cc == self.shared.class_count,
                    cc == v0.class_count,
                    cc <= MAX_CLASSES,
                    i < cc,
                    j <= cc,
                    v0.counts.len() == MAX_CLASSES,
                    v0.params.len() == MAX_CLASSES * MAX_CLASSES,
                    self.shared.simulation_state == old(self).shared.simulation_state,
                    self.shared.world_radius == old(self).shared.world_radius,
                    v0 == old(self).shared.cfg(),
                    self.seed == old(self).seed,
                    self.history == old(self).history,
                    self.selected_history_entry == old(self).selected_history_entry,
                    rng.state == rng_after(
                        seed_val,
                        force_draw_index(cc as int, i as int, j as int) as nat,
                    ),
                    forall|a: int|
                        0 <= a <= i ==> #[trigger] self.shared.particle_counts@[a] as int
                            == sm_range_spec(
                            rng_after(seed_val, count_draw_index(cc as int, a) as nat),
                            RANDOM_MIN_PARTICLE_COUNT as u64,
                            (RANDOM_MAX_PARTICLE_COUNT - 1) as u64,
                        ) as int,
                    forall|a: int|
                        i < a < MAX_CLASSES ==> #[trigger] self.shared.particle_counts@[
                            a
                        ] as int == v0.counts[a],
                    forall|k: int|
                        0 <= k < MAX_CLASSES * MAX_CLASSES && (k / (MAX_CLASSES as int) < i
                            || (k / (MAX_CLASSES as int) == i && k % (MAX_CLASSES as int) < j))
                            && k % (MAX_CLASSES as int) < cc
                            ==> #[trigger] self.shared.param_matrix.params@[k]
                            == derived_param(
                            seed_val,
                            cc as int,
                            k / (MAX_CLASSES as int),
                            k % (MAX_CLASSES as int),
                        ),
                    forall|k: int|
                        0 <= k < MAX_CLASSES * MAX_CLASSES && !((k / (MAX_CLASSES as int) < i
                            || (k / (MAX_CLASSES as int) == i && k % (MAX_CLASSES as int) < j))
                            && k % (MAX_CLASSES as int) < cc)
                            ==> #[trigger] self.shared.param_matrix.params@[k] == v0.params[k],
                decreases cc - j,
            {
                proof {
                    lemma_draw_indexes(cc as int, i as int, j as int);
                }
                let fdraw = rng.next_in(0, 20000);
                proof {
                    lemma_rng_after_succ(
                        seed_val,
                        force_draw_index(cc as int, i as int, j as int) as nat,
                    );
                }
                let f = reshape_force_exec(fdraw as i64);
                let udraw = rng.next_in(30, 100);
                proof {
                    lemma_rng_after_succ(
                        seed_val,
                        radius_draw_index(cc as int, i as int, j as int) as nat,
                    );
                }
                let rad = reshape_radius_exec(udraw as i64);
                let ghost params_prev = self.shared.param_matrix.params@;
                self.shared.param_matrix.set(i, j, Param::new(f, rad));
                proof {
                    lemma_rowmajor(i as int, j as int);
                    assert(self.shared.param_matrix.params@[i * (MAX_CLASSES as int) + (
                    j as int)] == derived_param(seed_val, cc as int, i as int, j as int));
                    assert forall|k: int|
                        0 <= k < MAX_CLASSES * MAX_CLASSES && k != i * (MAX_CLASSES as int) + (
                        j as int) implies #[trigger] self.shared.param_matrix.params@[k]
                        == params_prev[k] by {}
                    assert forall|k: int|
                        0 <= k < MAX_CLASSES * MAX_CLASSES && (k / (MAX_CLASSES as int) < i
                            || (k / (MAX_CLASSES as int) == i && k % (MAX_CLASSES as int) < j
                            + 1)) && k % (MAX_CLASSES as int) < cc
                        implies #[trigger] self.shared.param_matrix.params@[k]
                        == derived_param(
                        seed_val,
                        cc as int,
                        k / (MAX_CLASSES as int),
                        k % (MAX_CLASSES as int),
                    ) by {
                        vstd::arithmetic::div_mod::lemma_fundamental_div_mod(
                            k,
                            MAX_CLASSES as int,
                        );
                        vstd::arithmetic::div_mod::lemma_mod_bound(k, MAX_CLASSES as int);
                        if k != i * (MAX_CLASSES as int) + (j as int) {
                            assert(self.shared.param_matrix.params@[k] == params_prev[k]);
                        }
                    }
                    assert forall|k: int|
                        0 <= k < MAX_CLASSES * MAX_CLASSES && !((k / (MAX_CLASSES as int) < i
                            || (k / (MAX_CLASSES as int) == i && k % (MAX_CLASSES as int) < j
                            + 1)) && k % (MAX_CLASSES as int) < cc)
                        implies #[trigger] self.shared.param_matrix.params@[k] == v0.params[
                        k
                    ] by {
                        vstd::arithmetic::div_mod::lemma_fundamental_div_mod(
                            k,
                            MAX_CLASSES as int,
                        );
                        vstd::arithmetic::div_mod::lemma_mod_bound(k, MAX_CLASSES as int);
                        assert(k != i * (MAX_CLASSES as int) + (j as int));
                        assert(self.shared.param_matrix.params@[k] == params_prev[k]);
                    }
                }
                j = j + 1;
            }
            proof {
                lemma_draw_indexes(cc as int, i as int, cc as int);
                assert(force_draw_index(cc as int, i as int, cc as int) == count_draw_index(
                    cc as int,
                    i as int + 1,
                )) by (nonlinear_arith);
            }
            i = i + 1;
        }
        proof {
            assert(self.shared.cfg().counts =~= derive_cfg_spec(v0, seed_val).counts);
            assert forall|k: int| 0 <= k < MAX_CLASSES * MAX_CLASSES implies
                self.shared.cfg().params[k] == derive_cfg_spec(v0, seed_val).params[k] by {
                vstd::arithmetic::div_mod::lemma_fundamental_div_mod(k, MAX_CLASSES as int);
                vstd::arithmetic::div_mod::lemma_mod_bound(k, MAX_CLASSES as int);
            }
            assert(self.shared.cfg().params =~= derive_cfg_spec(v0, seed_val).params);
            assert(self.shared.cfg() =~= derive_cfg_spec(v0, seed_val));
        }
    }

    /// Draws a fresh configuration from the system entropy source: per
    /// active class a particle count from the practical range, per entry of
    /// the active matrix square a reshaped force and radius. Nothing can be
    /// promised about which values come back, only their ranges.
    fn randomize_config(&mut self)
        requires
            old(self).wf(),
        ensures
            final(self).wf(),
            randomized_rel(old(self).shared.cfg(), final(self).shared.cfg()),
            final(self).seed == old(self).seed,
            final(self).history == old(self).history,
            final(self).selected_history_entry == old(self).selected_history_entry,
    {
        let ghost v0: ConfigView = self.shared.cfg();
        let cc = self.shared.class_count;
        let mut i: usize = 0;
        while i < cc
            invariant
                self.wf(),
                cc == self.shared.class_count,
                cc == v0.class_count,
                cc <= MAX_CLASSES,
                i <= cc,
                v0.counts.len() == MAX_CLASSES,
                v0.params.len() == MAX_CLASSES * MAX_CLASSES,
                self.shared.simulation_state == old(self).shared.simulation_state,
                self.shared.world_radius == old(self).shared.world_radius,
                v0 == old(self).shared.cfg(),
                self.seed == old(self).seed,
                self.history == old(self).history,
                self.selected_history_entry == old(self).selected_history_entry,
                forall|a: int|
                    0 <= a < i ==> RANDOM_MIN_PARTICLE_COUNT
                        <= #[trigger] self.shared.particle_counts@[a]
                        < RANDOM_MAX_PARTICLE_COUNT,
                forall|a: int|
                    i <= a < MAX_CLASSES ==> #[trigger] self.shared.particle_counts@[a] as int
                        == v0.counts[a],
                forall|k: int|
                    0 <= k < MAX_CLASSES * MAX_CLASSES && k / (MAX_CLASSES as int) < i && k % (
                    MAX_CLASSES as int) < cc ==> abs(
                        (#[trigger] self.shared.param_matrix.params@[k]).force as int,
                    ) <= 41 && 0 <= self.shared.param_matrix.params@[k].radius < 128,
                forall|k: int|
                    0 <= k < MAX_CLASSES * MAX_CLASSES && !(k / (MAX_CLASSES as int) < i && k
                        % (MAX_CLASSES as int) < cc)
                        ==> #[trigger] self.shared.param_matrix.params@[k] == v0.params[k],
            decreases cc - i,
        {
            let cnt = entropy_in(
                RANDOM_MIN_PARTICLE_COUNT as u64,
                (RANDOM_MAX_PARTICLE_COUNT - 1) as u64,
            );
            let ghost counts_prev = self.shared.particle_counts@;
            self.shared.particle_counts[i] = cnt as usize;
            proof {
                assert forall|a: int| 0 <= a < i + 1 implies RANDOM_MIN_PARTICLE_COUNT
                    <= #[trigger] self.shared.particle_counts@[a]
                    < RANDOM_MAX_PARTICLE_COUNT by {
                    if a < i {
                        assert(counts_prev[a] == self.shared.particle_counts@[a]);
                    }
                }
            }
            let mut j: usize = 0;
            while j < cc
                invariant
                    self.wf(),
                    cc == self.shared.class_count,
                    cc == v0.class_count,
                    cc <= MAX_CLASSES,
                    i < cc,
                    j <= cc,
                    v0.counts.len() == MAX_CLASSES,
                    v0.params.len() == MAX_CLASSES * MAX_CLASSES,
                    self.shared.simulation_state == old(self).shared.simulation_state,
                    self.shared.world_radius == old(self).shared.world_radius,
                    v0 == old(self).shared.cfg(),
                    self.seed == old(self).seed,
                    self.history == old(self).history,
                    self.selected_history_entry == old(self).selected_history_entry,
                    forall|a: int|
                        0 <= a <= i ==> RANDOM_MIN_PARTICLE_COUNT
                            <= #[trigger] self.shared.particle_counts@[a]
                            < RANDOM_MAX_PARTICLE_COUNT,
                    forall|a: int|
                        i < a < MAX_CLASSES ==> #[trigger] self.shared.particle_counts@[
                            a
                        ] as int == v0.counts[a],
                    forall|k: int|
                        0 <= k < MAX_CLASSES * MAX_CLASSES && (k / (MAX_CLASSES as int) < i
                            || (k / (MAX_CLASSES as int) == i && k % (MAX_CLASSES as int) < j))
                            && k % (MAX_CLASSES as int) < cc ==> abs(
                            (#[trigger] self.shared.param_matrix.params@[k]).force as int,
                        ) <= 41 && 0 <= self.shared.param_matrix.params@[k].radius < 128,
                    forall|k: int|
                        0 <= k < MAX_CLASSES * MAX_CLASSES && !((k / (MAX_CLASSES as int) < i
                            || (k / (MAX_CLASSES as int) == i && k % (MAX_CLASSES as int) < j))
                            && k % (MAX_CLASSES as int) < cc)
                            ==> #[trigger] self.shared.param_matrix.params@[k] == v0.params[k],
                decreases cc - j,
            {
                let fdraw = entropy_in(0, 20000);
                let f = reshape_force_exec(fdraw as i64);
                let udraw = entropy_in(30, 100);
                let rad = reshape_radius_exec(udraw as i64);
                let ghost params_prev = self.shared.param_matrix.params@;
                self.shared.param_matrix.set(i, j, Param::new(f, rad));
                proof {
                    lemma_rowmajor(i as int, j as int);
                    assert forall|k: int|
                        0 <= k < MAX_CLASSES * MAX_CLASSES && (k / (MAX_CLASSES as int) < i
                            || (k / (MAX_CLASSES as int) == i && k % (MAX_CLASSES as int) < j
                            + 1)) && k % (MAX_CLASSES as int) < cc implies abs(
                        (#[trigger] self.shared.param_matrix.params@[k]).force as int,
                    ) <= 41 && 0 <= self.shared.param_matrix.params@[k].radius < 128 by {
                        vstd::arithmetic::div_mod::lemma_fundamental_div_mod(
                            k,
                            MAX_CLASSES as int,
                        );
                        vstd::arithmetic::div_mod::lemma_mod_bound(k, MAX_CLASSES as int);
                        if k != i * (MAX_CLASSES as int) + (j as int) {
                            assert(self.shared.param_matrix.params@[k] == params_prev[k]);
                        }
                    }
                    assert forall|k: int|
                        0 <= k < MAX_CLASSES * MAX_CLASSES && !((k / (MAX_CLASSES as int) < i
                            || (k / (MAX_CLASSES as int) == i && k % (MAX_CLASSES as int) < j
                            + 1)) && k % (MAX_CLASSES as int) < cc)
                        implies #[trigger] self.shared.param_matrix.params@[k] == v0.params[
                        k
                    ] by {
                        vstd::arithmetic::div_mod::lemma_fundamental_div_mod(
                            k,
                            MAX_CLASSES as int,
                        );
                        vstd::arithmetic::div_mod::lemma_mod_bound(k, MAX_CLASSES as int);
                        assert(k != i * (MAX_CLASSES as int) + (j as int));
                        assert(self.shared.param_matrix.params@[k] == params_prev[k]);
                    }
                }
                j = j + 1;
            }
            i = i + 1;
        }
    }

    /// Applies the current seed text: an empty seed randomizes from the
    /// entropy source; a seed of `'@'` followed by something that decodes
    /// as base64 restores the encoded configuration exactly; any other
    /// text is hashed and drives the deterministic derivation, so the same
    /// text always reproduces the same configuration.
    pub fn apply_seed(&mut self)
        requires
            old(self).wf(),
        ensures
            final(self).wf(),
            final(self).seed == old(self).seed,
            final(self).history == old(self).history,
            final(self).selected_history_entry == old(self).selected_history_entry,
            old(self).seed@.len() == 0 ==> randomized_rel(
                old(self).shared.cfg(),
                final(self).shared.cfg(),
            ),
            old(self).seed@.len() > 0 && old(self).seed@[0] != '@'
                ==> final(self).shared.cfg() == derive_cfg_spec(
                old(self).shared.cfg(),
                seed_hash_spec(old(self).seed@),
            ),
            forall|bs: Seq<u8>|
                old(self).seed@ == seq!['@'] + #[trigger] b64_of(bs)
                    ==> final(self).shared.cfg() == import_cfg_spec(old(self).shared.cfg(), bs),
            old(self).seed@.len() > 0 && old(self).seed@[0] == '@'
                ==> (final(self).shared.cfg() == derive_cfg_spec(
                old(self).shared.cfg(),
                seed_hash_spec(old(self).seed@),
            ) || exists|bs: Seq<u8>|
                final(self).shared.cfg() == import_cfg_spec(old(self).shared.cfg(), bs)),
    {
        let cs: Vec<char> = str_chars(self.seed.as_str());
        if cs.len() == 0 {
            self.randomize_config();
            return ;
        }
        if cs[0] == '@' {
            let mut tail: Vec<char> = Vec::new();
            let mut t: usize = 1;
            while t < cs.len()
                invariant
                    1 <= t <= cs@.len(),
                    tail@ == cs@.subrange(1, t as int),
                decreases cs@.len() - t,
            {
                tail.push(cs[t]);
                t = t + 1;
                proof {
                    assert(tail@ =~= cs@.subrange(1, t as int));
                }
            }
            proof {
                assert(tail@ =~= cs@.skip(1));
            }
            let decoded = b64_decode_chars(&tail);
            match decoded {
                Option::Some(bytes) => {
                    self.import(&bytes);
                    proof {
                        assert forall|bs: Seq<u8>|
                            old(self).seed@ == seq!['@'] + #[trigger] b64_of(bs)
                            implies self.shared.cfg() == import_cfg_spec(
                            old(self).shared.cfg(),
                            bs,
                        ) by {
                            assert(tail@ == b64_of(bs));
                            assert(bytes@ == bs);
                        }
                    }
                    return ;
                },
                Option::None => {},
            }
        }
        let h = seed_hash(&cs);
        self.derive_config(h);
        proof {
            assert forall|bs: Seq<u8>|
                old(self).seed@ == seq!['@'] + #[trigger] b64_of(bs)
                implies self.shared.cfg() == import_cfg_spec(old(self).shared.cfg(), bs) by {
                assert(cs@[0] == '@');
                assert(cs@.skip(1) =~= b64_of(bs));
            }
        }
    }

    /// Marks the simulation running and hands back the command to send.
    pub fn play(&mut self) -> (r: UiEvent)
        requires
            old(self).wf(),
        ensures
            final(self).wf(),
            final(self).shared.simulation_state == SimulationState::Running,
            final(self).shared.cfg() == (ConfigView {
                state: SimulationState::Running,
                ..old(self).shared.cfg()
            }),
            r is Play,
    {
        self.shared.simulation_state = SimulationState::Running;
        UiEvent::Play
    }

    /// Marks the simulation paused and hands back the command to send.
    pub fn pause(&mut self) -> (r: UiEvent)
        requires
            old(self).wf(),
        ensures
            final(self).wf(),
            final(self).shared.simulation_state == SimulationState::Paused,
            final(self).shared.cfg() == (ConfigView {
                state: SimulationState::Paused,
                ..old(self).shared.cfg()
            }),
            r is Pause,
    {
        self.shared.simulation_state = SimulationState::Paused;
        UiEvent::Pause
    }

    /// Restores the default configuration locally and hands back the
    /// command that makes the simulation thread do the same.
    pub fn reset(&mut self) -> (r: UiEvent)
        requires
            old(self).wf(),
        ensures
            final(self).wf(),
            final(self).shared.is_default(),
            final(self).shared.cfg() == SharedState::default_cfg(),
            r is Reset,
    {
        self.shared.reset_to_defaults();
        UiEvent::Reset
    }

    /// Hands back the command that respawns the particles.
    pub fn spawn(&self) -> (r: UiEvent)
        ensures
            r is Spawn,
    {
        UiEvent::Spawn
    }
}

} // verus!

verus! {

pub proof fn lemma_counts_bytes_index(sh: SharedState, n: int, c: int)
    requires
        0 <= c < n,
    ensures
        counts_bytes(sh, n).len() == 2 * n,
        counts_bytes(sh, n)[2 * c] == lo16(sh.particle_counts@[c] as int),
        counts_bytes(sh, n)[2 * c + 1] == hi16(sh.particle_counts@[c] as int),
    decreases n,
{
    lemma_counts_bytes_len(sh, n);
    lemma_counts_bytes_len(sh, n - 1);
    if c < n - 1 {
        lemma_counts_bytes_index(sh, n - 1, c);
    }
}

pub proof fn lemma_params_bytes_index(sh: SharedState, n: int, k: int)
    requires
        0 <= k < n,
    ensures
        params_bytes(sh, n).len() == 2 * n,
        params_bytes(sh, n)[2 * k] == byte_of_i64(sh.param_matrix.params@[k].force as int),
        params_bytes(sh, n)[2 * k + 1] == byte_of_i64(sh.param_matrix.params@[k].radius as int),
    decreases n,
{
    lemma_params_bytes_len(sh, n);
    lemma_params_bytes_len(sh, n - 1);
    if k < n - 1 {
        lemma_params_bytes_index(sh, n - 1, k);
    }
}

/// A 16-bit value survives the split into its two little-endian bytes.
pub proof fn lemma_le16_round_trip(v: int)
    requires
        0 <= v <= 65535,
    ensures
        lo16(v) + 256 * hi16(v) == v,
        lo16(v) < 256,
        hi16(v) < 256,
{
    vstd::arithmetic::div_mod::lemma_fundamental_div_mod(v, 256);
    vstd::arithmetic::div_mod::lemma_mod_bound(v, 256);
    assert(v / 256 <= 255) by (nonlinear_arith)
        requires
            0 <= v <= 65535,
            v == 256 * (v / 256) + v % 256,
            0 <= v % 256 < 256,
    ;
}

/// A signed byte value survives the two's-complement encoding.
pub proof fn lemma_byte_round_trip(v: int)
    requires
        PARAM_MIN <= v <= PARAM_MAX,
    ensures
        i64_of_byte(byte_of_i64(v)) == v,
{
}

/// Export→import round trip: importing the bytes an export produced
/// restores the world radius, the class count, every particle count and
/// every matrix entry exactly; the importing side keeps only its run state.
pub proof fn lemma_export_import_round_trip(sh: SharedState, v: ConfigView)
    requires
        sh.wf(),
    ensures
        import_cfg_spec(v, export_bytes_spec(sh)) == (ConfigView {
            state: v.state,
            ..sh.cfg()
        }),
{
    let bytes = export_bytes_spec(sh);
    let head = le16_of(sh.world_radius as int) + seq![sh.class_count as u8];
    let cb = counts_bytes(sh, MAX_CLASSES as int);
    let pb = params_bytes(sh, (MAX_CLASSES * MAX_CLASSES) as int);
    lemma_counts_bytes_len(sh, MAX_CLASSES as int);
    lemma_params_bytes_len(sh, (MAX_CLASSES * MAX_CLASSES) as int);
    assert(bytes.len() == 147);
    lemma_le16_round_trip(sh.world_radius as int);
    assert(bytes[0] == lo16(sh.world_radius as int));
    assert(bytes[1] == hi16(sh.world_radius as int));
    assert(read_u16_or(bytes, 0, DEFAULT_WORLD_RADIUS as int) == sh.world_radius);
    assert(bytes[2] == sh.class_count as u8);
    assert(read_u8_or(bytes, 2, MAX_CLASSES as int) == sh.class_count);
    assert forall|c: int| 0 <= c < MAX_CLASSES implies import_cfg_spec(v, bytes).counts[c]
        == sh.cfg().counts[c] by {
        lemma_counts_bytes_index(sh, MAX_CLASSES as int, c);
        assert(bytes[3 + 2 * c] == cb[2 * c]);
        assert(bytes[3 + 2 * c + 1] == cb[2 * c + 1]);
        lemma_le16_round_trip(sh.particle_counts@[c] as int);
        assert(read_u16_or(bytes, 3 + 2 * c, 0) == sh.particle_counts@[c] as int);
    }
    assert forall|k: int| 0 <= k < MAX_CLASSES * MAX_CLASSES implies import_cfg_spec(
        v,
        bytes,
    ).params[k] == sh.cfg().params[k] by {
        lemma_params_bytes_index(sh, (MAX_CLASSES * MAX_CLASSES) as int, k);
        assert(bytes[19 + 2 * k] == pb[2 * k]);
        assert(bytes[19 + 2 * k + 1] == pb[2 * k + 1]);
        assert(sh.param_matrix.params@[k].wf());
        lemma_byte_round_trip(sh.param_matrix.params@[k].force as int);
        lemma_byte_round_trip(sh.param_matrix.params@[k].radius as int);
    }
    assert(import_cfg_spec(v, bytes).counts =~= sh.cfg().counts);
    assert(import_cfg_spec(v, bytes).params =~= sh.cfg().params);
    assert(import_cfg_spec(v, bytes) =~= (ConfigView { state: v.state, ..sh.cfg() }));
}

/// The export blob depends only on the configuration: two states holding
/// the same configuration export byte-for-byte equal blobs.
pub proof fn lemma_cfg_determines_export(s1: SharedState, s2: SharedState)
    requires
        s1.cfg() == s2.cfg(),
    ensures
        export_bytes_spec(s1) == export_bytes_spec(s2),
{
    assert forall|c: int| 0 <= c < MAX_CLASSES implies s1.particle_counts@[c]
        == s2.particle_counts@[c] by {
        assert(s1.cfg().counts == s2.cfg().counts);
        assert(s1.cfg().counts[c] == s1.particle_counts@[c] as int);
        assert(s2.cfg().counts[c] == s2.particle_counts@[c] as int);
    }
    lemma_counts_bytes_congruent(s1, s2, MAX_CLASSES as int);
    lemma_params_bytes_congruent(s1, s2, (MAX_CLASSES * MAX_CLASSES) as int);
}

proof fn lemma_counts_bytes_congruent(s1: SharedState, s2: SharedState, n: int)
    requires
        n <= MAX_CLASSES,
        forall|c: int| 0 <= c < n ==> s1.particle_counts@[c] == s2.particle_counts@[c],
    ensures
        counts_bytes(s1, n) == counts_bytes(s2, n),
    decreases n,
{
    if n > 0 {
        lemma_counts_bytes_congruent(s1, s2, n - 1);
    }
}

proof fn lemma_params_bytes_congruent(s1: SharedState, s2: SharedState, n: int)
    requires
        s1.param_matrix.params@ == s2.param_matrix.params@,
    ensures
        params_bytes(s1, n) == params_bytes(s2, n),
    decreases n,
{
    if n > 0 {
        lemma_params_bytes_congruent(s1, s2, n - 1);
    }
}

/// Reset followed by export always yields the same blob: the blob depends
/// only on the configuration, and a reset always restores the default one.
pub proof fn lemma_reset_export_default(s1: SharedState, s2: SharedState)
    requires
        s1.cfg() == SharedState::default_cfg(),
        s2.cfg() == SharedState::default_cfg(),
    ensures
        export_bytes_spec(s1) == export_bytes_spec(s2),
{
    lemma_cfg_determines_export(s1, s2);
}

/// The seeded derivation is deterministic: the same non-empty seed text
/// over the same prior configuration always yields identical class counts
/// and parameter matrices.
pub proof fn lemma_seed_determinism(
    v1: ConfigView,
    v2: ConfigView,
    cs1: Seq<char>,
    cs2: Seq<char>,
)
    requires
        v1 == v2,
        cs1 == cs2,
    ensures
        derive_cfg_spec(v1, seed_hash_spec(cs1)) == derive_cfg_spec(v2, seed_hash_spec(cs2)),
{
}

} // verus!
