//! Impact manifests and non-transferable karma allowances.
//!
//! A safety-epoch manifest records one epoch's measured impact for a vNode,
//! carries a content hash over a canonical encoding of its key fields, and
//! can be chained to a previous record's hash. An eligible manifest converts
//! into a karma allowance: a non-mintable, non-transferable accounting
//! record. All quantities are held as scaled integers (thousandths of a
//! unit), so every computation here is exact.

use vstd::prelude::*;
use vstd::utf8::encode_utf8;
use crate::external::fresh_uuid_string;
use crate::external::now_unix_seconds;
use crate::external::sha256_digest;
use crate::external::sha256_of;
use crate::external::string_from_ascii;
use crate::ratio::Ratio;

verus! {

/// The big-endian byte `i` of a 64-bit value.
pub open spec fn be_byte(x: u64, i: int) -> u8 {
    ((x >> (((7 - i) * 8) as u64)) & 0xff) as u8
}

/// The eight big-endian bytes of a 64-bit value.
pub open spec fn be_bytes_u64(x: u64) -> Seq<u8> {
    Seq::new(8, |i: int| be_byte(x, i))
}

/// A length-prefixed string field: the UTF-8 length as eight big-endian
/// bytes, then the UTF-8 bytes.
pub open spec fn field_bytes(s: Seq<char>) -> Seq<u8> {
    be_bytes_u64(encode_utf8(s).len() as u64) + encode_utf8(s)
}

/// An optional string field: absent fields contribute nothing.
pub open spec fn opt_field_bytes(s: Option<Seq<char>>) -> Seq<u8> {
    match s {
        Option::Some(v) => field_bytes(v),
        Option::None => Seq::<u8>::empty(),
    }
}

/// The canonical encoding a manifest is hashed over: its identifying fields
/// in a fixed order.
pub open spec fn manifest_hash_input(
    id: Seq<char>,
    vnode_id: Seq<char>,
    policy_shard_id: Seq<char>,
    epoch_start: u64,
    epoch_end: u64,
    vnode_log_root: Seq<char>,
    prev_hash: Option<Seq<char>>,
) -> Seq<u8> {
    field_bytes(id) + field_bytes(vnode_id) + field_bytes(policy_shard_id) + be_bytes_u64(
        epoch_start,
    ) + be_bytes_u64(epoch_end) + field_bytes(vnode_log_root) + opt_field_bytes(prev_hash)
}

/// The canonical encoding an allowance is hashed over.
pub open spec fn allowance_hash_input(
    id: Seq<char>,
    vnode_id: Seq<char>,
    policy_shard_id: Seq<char>,
    epoch_start: u64,
    epoch_end: u64,
    manifest_hash: Seq<char>,
    prev_hash: Option<Seq<char>>,
) -> Seq<u8> {
    field_bytes(id) + field_bytes(vnode_id) + field_bytes(policy_shard_id) + be_bytes_u64(
        epoch_start,
    ) + be_bytes_u64(epoch_end) + field_bytes(manifest_hash) + opt_field_bytes(prev_hash)
}

/// The lower-case hexadecimal digit for a value below sixteen.
pub open spec fn hex_digit(n: u8) -> char
    recommends
        n < 16,
{
    if n < 10 {
        (('0' as u8) + n) as char
    } else {
        (('a' as u8) + (n - 10)) as char
    }
}

/// The lower-case hexadecimal rendering of a byte sequence: two digits per
/// byte, high digit first.
pub open spec fn hex_of(bytes: Seq<u8>) -> Seq<char> {
    Seq::new(
        bytes.len() * 2,
        |i: int|
            if i % 2 == 0 {
                hex_digit(bytes[i / 2] >> 4)
            } else {
                hex_digit(bytes[i / 2] & 0x0f)
            },
    )
}

/// Append the eight big-endian bytes of `x`.
fn push_u64_be(buf: &mut Vec<u8>, x: u64)
    ensures
        final(buf)@ == old(buf)@ + be_bytes_u64(x),
{
    let mut i: usize = 0;
    while i < 8
        invariant
            i <= 8,
            buf@ == old(buf)@ + be_bytes_u64(x).take(i as int),
        decreases 8 - i,
    {
        let shift: u64 = 56 - 8 * (i as u64);
        let byte: u64 = (x >> shift) & 0xff;
        proof {
            assert((x >> shift) & 0xff < 256) by (bit_vector);
            assert((((7 - i as int) * 8) as u64) == shift);
            assert(be_bytes_u64(x).take(i + 1) =~= be_bytes_u64(x).take(i as int).push(
                be_byte(x, i as int),
            ));
        }
        buf.push(byte as u8);
        i += 1;
    }
    proof {
        assert(be_bytes_u64(x).take(8) =~= be_bytes_u64(x));
    }
}

/// Append a length-prefixed string field.
fn push_str_field(buf: &mut Vec<u8>, s: &str)
    ensures
        final(buf)@ == old(buf)@ + field_bytes(s@),
{
    let bytes = s.as_bytes_vec();
    push_u64_be(buf, bytes.len() as u64);
    buf.extend_from_slice(bytes.as_slice());
    proof {
        assert(buf@ =~= old(buf)@ + field_bytes(s@));
    }
}

/// Render a byte sequence as its lower-case hexadecimal string.
fn hex_string(bytes: &Vec<u8>) -> (r: String)
    requires
        bytes@.len() * 2 <= usize::MAX,
    ensures
        r@ == hex_of(bytes@),
{
    let n = bytes.len();
    let mut ascii: Vec<u8> = Vec::new();
    let mut i: usize = 0;
    while i < n
        invariant
            n == bytes@.len(),
            n * 2 <= usize::MAX,
            i <= n,
            ascii@.len() == 2 * i,
            forall|j: int|
                0 <= j < 2 * i ==> ascii@[j] < 128 && (#[trigger] ascii@[j]) as char == hex_of(
                    bytes@,
                )[j],
        decreases n - i,
    {
        let b = bytes[i];
        let hi: u8 = b >> 4;
        let lo: u8 = b & 0x0f;
        proof {
            assert(b >> 4 < 16 && b & 0x0f < 16) by (bit_vector);
        }
        let hi_digit: u8 = if hi < 10 {
            48 + hi
        } else {
            97 + (hi - 10)
        };
        let lo_digit: u8 = if lo < 10 {
            48 + lo
        } else {
            97 + (lo - 10)
        };
        proof {
            assert(('0' as u8) == 48 && ('a' as u8) == 97);
            assert(hi_digit as char == hex_digit(bytes@[i as int] >> 4));
            assert(lo_digit as char == hex_digit(bytes@[i as int] & 0x0f));
        }
        ascii.push(hi_digit);
        ascii.push(lo_digit);
        i += 1;
    }
    let r = string_from_ascii(ascii);
    proof {
        assert(r@ =~= hex_of(bytes@));
    }
    r
}

/// A vNode identity bound to a policy shard.
#[derive(Debug)]
pub struct VNodeId {
    pub vnode_id: String,
    pub policy_shard_id: String,
}

impl Clone for VNodeId {
    fn clone(&self) -> (r: Self)
        ensures
            r.vnode_id@ == self.vnode_id@,
            r.policy_shard_id@ == self.policy_shard_id@,
    {
        VNodeId {
            vnode_id: self.vnode_id.clone(),
            policy_shard_id: self.policy_shard_id.clone(),
        }
    }
}

/// Measured physical impact for one epoch, in exact scaled units: each
/// quantity is held in thousandths of its unit, and counts are whole.
#[derive(Debug, Clone, Copy, PartialEq, Eq, Structural)]
pub struct ImpactMetrics {
    /// Thousandths of a ton of carbon-dioxide equivalent avoided versus the
    /// baseline.
    pub t_co2e_avoided: i64,
    /// Thousandths of a kilowatt-hour reduced versus the baseline.
    pub kwh_reduced: i64,
    /// Aggregate pollution-exposure change in thousandths of the index unit;
    /// positive means someone is worse off.
    pub pollution_exposure_delta: i64,
    /// Count of blocked near-miss safety events.
    pub near_misses_blocked: u64,
    /// Biosafety index change in thousandths, within minus one to plus one.
    pub biosafety_delta: i64,
}

impl Default for ImpactMetrics {
    /// No measured impact.
    fn default() -> (m: ImpactMetrics)
        ensures
            m.t_co2e_avoided == 0,
            m.kwh_reduced == 0,
            m.pollution_exposure_delta == 0,
            m.near_misses_blocked == 0,
            m.biosafety_delta == 0,
    {
        ImpactMetrics {
            t_co2e_avoided: 0,
            kwh_reduced: 0,
            pollution_exposure_delta: 0,
            near_misses_blocked: 0,
            biosafety_delta: 0,
        }
    }
}

/// The conservative counterfactual an epoch's impact is measured against.
#[derive(Debug)]
pub struct BaselineModel {
    /// Human-readable description of the baseline assumption.
    pub description: String,
    /// Whether this baseline has passed an additionality review.
    pub additionality_certified: bool,
    /// Minimal acceptable improvement over the baseline.
    pub min_improvement_ratio: Ratio,
}

impl Clone for BaselineModel {
    fn clone(&self) -> (r: Self)
        ensures
            r.description@ == self.description@,
            r.additionality_certified == self.additionality_certified,
            r.min_improvement_ratio == self.min_improvement_ratio,
    {
        BaselineModel {
            description: self.description.clone(),
            additionality_certified: self.additionality_certified,
            min_improvement_ratio: self.min_improvement_ratio,
        }
    }
}

/// Justice and equity constraints in force for the policy shard.
#[derive(Debug, Clone, Copy, PartialEq, Eq, Structural)]
pub struct JusticeConstraints {
    /// Disallow counting when pollution is shifted onto others.
    pub forbid_burden_shifting: bool,
    /// Personal-data and augmentation uses must respect opt-out.
    pub require_opt_out_respected: bool,
}

/// Whether a manifest may earn karma: its baseline must be certified, the
/// computed improvement must reach the baseline's minimum, and counting is
/// refused when burden shifting is forbidden and the pollution-exposure
/// change is positive.
pub open spec fn spec_eligible(
    baseline_certified: bool,
    min_improvement: Ratio,
    t_co2e_avoided: i64,
    forbid_burden_shifting: bool,
    pollution_exposure_delta: i64,
) -> bool {
    if !baseline_certified {
        false
    } else {
        let improvement_met = if min_improvement.num == 0 {
            true
        } else if t_co2e_avoided > 0 {
            !(min_improvement.den < min_improvement.num)
        } else {
            !(min_improvement.num > 0)
        };
        if !improvement_met {
            false
        } else if forbid_burden_shifting && pollution_exposure_delta > 0 {
            false
        } else {
            true
        }
    }
}

/// A hash-chained, audit-ready record of one epoch's measured impact.
#[derive(Debug)]
pub struct SafetyEpochManifest {
    pub id: String,
    pub vnode: VNodeId,
    pub epoch_start: u64,
    pub epoch_end: u64,
    pub metrics: ImpactMetrics,
    pub baseline: BaselineModel,
    pub justice: JusticeConstraints,
    /// Merkle root over the raw vNode logs.
    pub vnode_log_root: String,
    /// References into external measurement systems.
    pub external_refs: Vec<String>,
    pub prev_hash: Option<String>,
    pub self_hash: String,
}

impl SafetyEpochManifest {
    /// The hash this manifest's fields canonically denote.
    pub open spec fn spec_hash(&self) -> Seq<char> {
        hex_of(
            sha256_of(
                manifest_hash_input(
                    self.id@,
                    self.vnode.vnode_id@,
                    self.vnode.policy_shard_id@,
                    self.epoch_start,
                    self.epoch_end,
                    self.vnode_log_root@,
                    match self.prev_hash {
                        Option::Some(ref p) => Option::Some(p@),
                        Option::None => Option::None,
                    },
                ),
            ),
        )
    }

    /// Compute this manifest's content hash.
    fn compute_hash(&self) -> (r: String)
        ensures
            r@ == self.spec_hash(),
    {
        let mut buf: Vec<u8> = Vec::new();
        push_str_field(&mut buf, self.id.as_str());
        push_str_field(&mut buf, self.vnode.vnode_id.as_str());
        push_str_field(&mut buf, self.vnode.policy_shard_id.as_str());
        push_u64_be(&mut buf, self.epoch_start);
        push_u64_be(&mut buf, self.epoch_end);
        push_str_field(&mut buf, self.vnode_log_root.as_str());
        match &self.prev_hash {
            Option::Some(p) => push_str_field(&mut buf, p.as_str()),
            Option::None => {},
        }
        proof {
            assert(buf@ =~= manifest_hash_input(
                self.id@,
                self.vnode.vnode_id@,
                self.vnode.policy_shard_id@,
                self.epoch_start,
                self.epoch_end,
                self.vnode_log_root@,
                match self.prev_hash {
                    Option::Some(ref p) => Option::Some(p@),
                    Option::None => Option::None,
                },
            ));
        }
        let digest = sha256_digest(&buf);
        hex_string(&digest)
    }

    /// Build a manifest: it gets a fresh identifier and its content hash
    /// over the canonical encoding of its identifying fields.
    pub fn new(
        vnode: VNodeId,
        epoch_start: u64,
        epoch_end: u64,
        metrics: ImpactMetrics,
        baseline: BaselineModel,
        justice: JusticeConstraints,
        vnode_log_root: String,
        external_refs: Vec<String>,
        prev_hash: Option<String>,
    ) -> (m: SafetyEpochManifest)
        ensures
            m.id@.len() == 36,
            m.vnode.vnode_id@ == vnode.vnode_id@,
            m.vnode.policy_shard_id@ == vnode.policy_shard_id@,
            m.epoch_start == epoch_start,
            m.epoch_end == epoch_end,
            m.metrics == metrics,
            m.baseline.description@ == baseline.description@,
            m.baseline.additionality_certified == baseline.additionality_certified,
            m.baseline.min_improvement_ratio == baseline.min_improvement_ratio,
            m.justice == justice,
            m.vnode_log_root@ == vnode_log_root@,
            m.external_refs == external_refs,
            m.prev_hash == prev_hash,
            m.self_hash@ == m.spec_hash(),
    {
        let id = fresh_uuid_string();
        let mut manifest = SafetyEpochManifest {
            id,
            vnode,
            epoch_start,
            epoch_end,
            metrics,
            baseline,
            justice,
            vnode_log_root,
            external_refs,
            prev_hash,
            self_hash: String::new(),
        };
        let h = manifest.compute_hash();
        manifest.self_hash = h;
        manifest
    }

    /// Whether this manifest may earn karma.
    pub fn is_eligible_for_karma(&self) -> (b: bool)
        requires
            self.baseline.min_improvement_ratio.wf(),
        ensures
            b == spec_eligible(
                self.baseline.additionality_certified,
                self.baseline.min_improvement_ratio,
                self.metrics.t_co2e_avoided,
                self.justice.forbid_burden_shifting,
                self.metrics.pollution_exposure_delta,
            ),
    {
        if !self.baseline.additionality_certified {
            return false;
        }
        let min = self.baseline.min_improvement_ratio;
        let improvement_met = if min.num == 0 {
            true
        } else if self.metrics.t_co2e_avoided > 0 {
            !(min.den < min.num)
        } else {
            false
        };
        if !improvement_met {
            return false;
        }
        if self.justice.forbid_burden_shifting && self.metrics.pollution_exposure_delta > 0 {
            return false;
        }
        true
    }

    /// Convert an eligible manifest into a non-transferable karma allowance.
    ///
    /// The allowance's internal accounting delta is the exact sum of each
    /// measured quantity times its price, in scaled units; an ineligible
    /// manifest yields nothing.
    pub fn to_karma_allowance(
        &self,
        prev_hash: Option<String>,
        au_et_price_per_tco2e: i64,
        au_et_price_per_kwh: i64,
        au_et_price_per_near_miss: i64,
    ) -> (r: Option<KarmaAllowance>)
        requires
            self.baseline.min_improvement_ratio.wf(),
            i128::MIN <= self.metrics.t_co2e_avoided * au_et_price_per_tco2e
                + self.metrics.kwh_reduced * au_et_price_per_kwh,
            self.metrics.t_co2e_avoided * au_et_price_per_tco2e + self.metrics.kwh_reduced
                * au_et_price_per_kwh <= i128::MAX,
            i128::MIN <= self.metrics.t_co2e_avoided * au_et_price_per_tco2e
                + self.metrics.kwh_reduced * au_et_price_per_kwh
                + self.metrics.near_misses_blocked * au_et_price_per_near_miss,
            self.metrics.t_co2e_avoided * au_et_price_per_tco2e + self.metrics.kwh_reduced
                * au_et_price_per_kwh + self.metrics.near_misses_blocked
                * au_et_price_per_near_miss <= i128::MAX,
        ensures
            r is Some == spec_eligible(
                self.baseline.additionality_certified,
                self.baseline.min_improvement_ratio,
                self.metrics.t_co2e_avoided,
                self.justice.forbid_burden_shifting,
                self.metrics.pollution_exposure_delta,
            ),
            r matches Option::Some(a) ==> {
                &&& a.id@.len() == 36
                &&& a.vnode.vnode_id@ == self.vnode.vnode_id@
                &&& a.vnode.policy_shard_id@ == self.vnode.policy_shard_id@
                &&& a.epoch_start == self.epoch_start
                &&& a.epoch_end == self.epoch_end
                &&& a.au_et_delta == self.metrics.t_co2e_avoided * au_et_price_per_tco2e
                    + self.metrics.kwh_reduced * au_et_price_per_kwh
                    + self.metrics.near_misses_blocked * au_et_price_per_near_miss
                &&& a.metrics == self.metrics
                &&& a.baseline.description@ == self.baseline.description@
                &&& a.baseline.additionality_certified == self.baseline.additionality_certified
                &&& a.baseline.min_improvement_ratio == self.baseline.min_improvement_ratio
                &&& a.justice == self.justice
                &&& a.manifest_hash@ == self.self_hash@
                &&& a.prev_hash == prev_hash
                &&& a.self_hash@ == a.spec_hash()
            },
    {
        if !self.is_eligible_for_karma() {
            return Option::None;
        }

        proof {
            assert(i128::MIN <= (self.metrics.t_co2e_avoided as int) * (au_et_price_per_tco2e
                as int) <= i128::MAX) by (nonlinear_arith)
                requires
                    i64::MIN <= self.metrics.t_co2e_avoided <= i64::MAX,
                    i64::MIN <= au_et_price_per_tco2e <= i64::MAX,
            {
            }
            assert(i128::MIN <= (self.metrics.kwh_reduced as int) * (au_et_price_per_kwh as int)
                <= i128::MAX) by (nonlinear_arith)
                requires
                    i64::MIN <= self.metrics.kwh_reduced <= i64::MAX,
                    i64::MIN <= au_et_price_per_kwh <= i64::MAX,
            {
            }
            assert(i128::MIN <= (self.metrics.near_misses_blocked as int) * (
            au_et_price_per_near_miss as int) <= i128::MAX) by (nonlinear_arith)
                requires
                    0 <= self.metrics.near_misses_blocked <= u64::MAX,
                    i64::MIN <= au_et_price_per_near_miss <= i64::MAX,
            {
            }
        }
        let p1: i128 = (self.metrics.t_co2e_avoided as i128) * (au_et_price_per_tco2e as i128);
        let p2: i128 = (self.metrics.kwh_reduced as i128) * (au_et_price_per_kwh as i128);
        let p3: i128 = (self.metrics.near_misses_blocked as i128) * (au_et_price_per_near_miss
            as i128);
        proof {
            assert(p1 + p2 + p3 <= i128::MAX && i128::MIN <= p1 + p2 + p3);
        }
        let au_et_delta: i128 = p1 + p2 + p3;

        let id = fresh_uuid_string();
        let mut allowance = KarmaAllowance {
            id,
            vnode: self.vnode.clone(),
            epoch_start: self.epoch_start,
            epoch_end: self.epoch_end,
            au_et_delta,
            metrics: self.metrics,
            baseline: self.baseline.clone(),
            justice: self.justice,
            manifest_hash: self.self_hash.clone(),
            prev_hash,
            self_hash: String::new(),
        };
        let h = allowance.compute_hash();
        allowance.self_hash = h;
        Option::Some(allowance)
    }
}

/// A non-mintable, non-transferable karma allowance for a single epoch.
#[derive(Debug)]
pub struct KarmaAllowance {
    pub id: String,
    pub vnode: VNodeId,
    pub epoch_start: u64,
    pub epoch_end: u64,
    /// The implied internal accounting delta, in scaled units.
    pub au_et_delta: i128,
    pub metrics: ImpactMetrics,
    pub baseline: BaselineModel,
    pub justice: JusticeConstraints,
    /// The hash of the manifest this allowance derives from.
    pub manifest_hash: String,
    pub prev_hash: Option<String>,
    pub self_hash: String,
}

impl KarmaAllowance {
    /// The hash this allowance's fields canonically denote.
    pub open spec fn spec_hash(&self) -> Seq<char> {
        hex_of(
            sha256_of(
                allowance_hash_input(
                    self.id@,
                    self.vnode.vnode_id@,
                    self.vnode.policy_shard_id@,
                    self.epoch_start,
                    self.epoch_end,
                    self.manifest_hash@,
                    match self.prev_hash {
                        Option::Some(ref p) => Option::Some(p@),
                        Option::None => Option::None,
                    },
                ),
            ),
        )
    }

    /// Compute this allowance's content hash.
    fn compute_hash(&self) -> (r: String)
        ensures
            r@ == self.spec_hash(),
    {
        let mut buf: Vec<u8> = Vec::new();
        push_str_field(&mut buf, self.id.as_str());
        push_str_field(&mut buf, self.vnode.vnode_id.as_str());
        push_str_field(&mut buf, self.vnode.policy_shard_id.as_str());
        push_u64_be(&mut buf, self.epoch_start);
        push_u64_be(&mut buf, self.epoch_end);
        push_str_field(&mut buf, self.manifest_hash.as_str());
        match &self.prev_hash {
            Option::Some(p) => push_str_field(&mut buf, p.as_str()),
            Option::None => {},
        }
        proof {
            assert(buf@ =~= allowance_hash_input(
                self.id@,
                self.vnode.vnode_id@,
                self.vnode.policy_shard_id@,
                self.epoch_start,
                self.epoch_end,
                self.manifest_hash@,
                match self.prev_hash {
                    Option::Some(ref p) => Option::Some(p@),
                    Option::None => Option::None,
                },
            ));
        }
        let digest = sha256_digest(&buf);
        hex_string(&digest)
    }

    /// Allowances are non-transferable and non-mintable: any attempted
    /// transfer is refused.
    pub fn forbid_transfer(&self, _to: &str) -> (r: Result<(), &'static str>)
        ensures
            r matches Result::Err(m) && m@
                == "karma allowances are non-transferable and non-mintable"@,
    {
        Result::Err("karma allowances are non-transferable and non-mintable")
    }
}

/// The epoch window containing the given moment: the window starts at the
/// greatest multiple of the epoch length not above the moment, and ends one
/// epoch length later, saturating at the largest representable time.
pub fn epoch_window_at(now: u64, epoch_seconds: u64) -> (r: (u64, u64))
    requires
        epoch_seconds > 0,
    ensures
        r.0 == now - (now % epoch_seconds),
        r.0 % epoch_seconds == 0,
        r.0 + epoch_seconds <= u64::MAX ==> r.1 == r.0 + epoch_seconds,
        r.0 + epoch_seconds > u64::MAX ==> r.1 == u64::MAX,
{
    let rem = now % epoch_seconds;
    proof {
        vstd::arithmetic::div_mod::lemma_fundamental_div_mod(now as int, epoch_seconds as int);
        vstd::arithmetic::mul::lemma_mul_nonnegative(
            (now as int) / (epoch_seconds as int),
            epoch_seconds as int,
        );
        assert(rem <= now);
    }
    let start = now - rem;
    proof {
        vstd::arithmetic::div_mod::lemma_fundamental_div_mod(now as int, epoch_seconds as int);
        assert(start == ((now as int) / (epoch_seconds as int)) * epoch_seconds) by (nonlinear_arith)
            requires
                start == now - rem,
                now == epoch_seconds * ((now as int) / (epoch_seconds as int)) + rem,
        {
        }
        vstd::arithmetic::div_mod::lemma_mod_multiples_basic(
            (now as int) / (epoch_seconds as int),
            epoch_seconds as int,
        );
    }
    let end = match start.checked_add(epoch_seconds) {
        Option::Some(e) => e,
        Option::None => u64::MAX,
    };
    (start, end)
}

/// The epoch window around the present moment, read from the system clock.
pub fn current_epoch_window(epoch_seconds: u64) -> (r: (u64, u64))
    requires
        epoch_seconds > 0,
    ensures
        r.0 % epoch_seconds == 0,
        r.1 == r.0 + epoch_seconds || r.1 == u64::MAX,
{
    let now = now_unix_seconds();
    epoch_window_at(now, epoch_seconds)
}

} // verus!
