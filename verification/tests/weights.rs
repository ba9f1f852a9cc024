use allfeat_node::weights::artists::{SubstrateWeight, WeightInfo as ArtistsWeightInfo};
use allfeat_node::weights::safe_mode::{AllfeatWeight as SafeModeWeight, WeightInfo as SafeModeWeightInfo};
use allfeat_node::weights::utility::{AllfeatWeight as UtilityWeight, WeightInfo as UtilityWeightInfo};
use allfeat_node::weights::{saturating_mul, RuntimeDbWeight, Weight};

const ROCKS_DB: RuntimeDbWeight = RuntimeDbWeight { read: 25_000_000, write: 100_000_000 };

fn w(ref_time: u64, proof_size: u64) -> Weight {
    Weight { ref_time, proof_size }
}

fn outside(weight: sp_weights::Weight) -> Weight {
    Weight { ref_time: weight.ref_time(), proof_size: weight.proof_size() }
}

fn outside_db(db: RuntimeDbWeight) -> sp_weights::RuntimeDbWeight {
    sp_weights::RuntimeDbWeight { read: db.read, write: db.write }
}

#[test]
fn products_are_held_at_the_largest_number() {
    assert_eq!(saturating_mul(0, u64::MAX), 0);
    assert_eq!(saturating_mul(3, 7), 21);
    assert_eq!(saturating_mul(1 << 32, 1 << 31), 1 << 63);
    assert_eq!(saturating_mul(1 << 32, 1 << 32), u64::MAX);
    assert_eq!(saturating_mul(u64::MAX, 2), u64::MAX);
    assert_eq!(saturating_mul(u64::MAX, 1), u64::MAX);
}

#[test]
fn weights_add_and_multiply_part_by_part() {
    assert_eq!(Weight::from_parts(1, 2), w(1, 2));
    assert_eq!(w(5, 6).ref_time(), 5);
    assert_eq!(w(5, 6).proof_size(), 6);
    assert_eq!(w(1, 2).saturating_add(w(10, 20)), w(11, 22));
    assert_eq!(w(u64::MAX, 2).saturating_add(w(1, 20)), w(u64::MAX, 22));
    assert_eq!(w(1, u64::MAX - 1).saturating_add(w(1, 1)), w(2, u64::MAX));
    assert_eq!(w(3, 4).saturating_mul(5), w(15, 20));
    assert_eq!(w(3, 1 << 63).saturating_mul(2), w(6, u64::MAX));
    assert_eq!(w(3, 4).saturating_mul(0), w(0, 0));
}

#[test]
fn weights_agree_with_the_weights_of_the_runtime() {
    let samples = [0u64, 1, 2, 1489, 4_840_000, 1 << 40, u64::MAX / 2, u64::MAX - 1, u64::MAX];
    for a in samples {
        for b in samples {
            let left = sp_weights::Weight::from_parts(a, b);
            let right = sp_weights::Weight::from_parts(b, a);
            assert_eq!(w(a, b).saturating_add(w(b, a)), outside(left.saturating_add(right)));
            assert_eq!(w(a, b).saturating_mul(b), outside(left.saturating_mul(b)));
            let db = RuntimeDbWeight { read: a, write: b };
            assert_eq!(db.reads(b), outside(outside_db(db).reads(b)));
            assert_eq!(db.writes(a), outside(outside_db(db).writes(a)));
        }
    }
}

#[test]
fn reads_and_writes_cost_computation_time_only() {
    assert_eq!(ROCKS_DB.reads(0), w(0, 0));
    assert_eq!(ROCKS_DB.reads(3), w(75_000_000, 0));
    assert_eq!(ROCKS_DB.writes(2), w(200_000_000, 0));
    assert_eq!(ROCKS_DB.reads(u64::MAX), w(u64::MAX, 0));
    assert_eq!(ROCKS_DB.charge(w(1, 7), 3, 2), w(275_000_001, 7));
    assert_eq!(ROCKS_DB.charge(w(1, 7), 0, 0), w(1, 7));
}

#[test]
fn safe_mode_weights() {
    let weights = SafeModeWeight::new(ROCKS_DB);
    assert_eq!(weights.on_initialize_noop(), w(4_840_000 + 25_000_000, 1489));
    assert_eq!(weights.on_initialize_exit(), w(13_440_000 + 125_000_000, 1489));
    assert_eq!(weights.enter(), w(0, 0));
    assert_eq!(weights.force_enter(), w(15_320_000 + 125_000_000, 1489));
    assert_eq!(weights.extend(), w(0, 0));
    assert_eq!(weights.force_extend(), w(16_760_000 + 125_000_000, 1489));
    assert_eq!(weights.force_exit(), w(17_320_000 + 125_000_000, 1489));
    assert_eq!(weights.release_deposit(), w(72_921_000 + 75_000_000 + 200_000_000, 3622));
    assert_eq!(weights.force_release_deposit(), w(70_961_000 + 50_000_000 + 200_000_000, 3622));
    assert_eq!(weights.force_slash_deposit(), w(56_601_000 + 50_000_000 + 200_000_000, 3622));
}

#[test]
fn safe_mode_weights_with_free_and_with_priceless_storage() {
    let free = SafeModeWeight::new(RuntimeDbWeight { read: 0, write: 0 });
    assert_eq!(free.on_initialize_noop(), w(4_840_000, 1489));
    assert_eq!(free.release_deposit(), w(72_921_000, 3622));
    let priceless = SafeModeWeight::new(RuntimeDbWeight { read: u64::MAX, write: u64::MAX });
    assert_eq!(priceless.on_initialize_noop(), w(u64::MAX, 1489));
    assert_eq!(priceless.force_slash_deposit(), w(u64::MAX, 3622));
    assert_eq!(priceless.enter(), w(0, 0));
}

#[test]
fn safe_mode_weights_agree_with_the_weights_of_the_runtime() {
    for db in [ROCKS_DB, RuntimeDbWeight { read: 1, write: u64::MAX / 3 }] {
        let weights = SafeModeWeight::new(db);
        let theirs = outside_db(db);
        assert_eq!(
            weights.on_initialize_exit(),
            outside(
                sp_weights::Weight::from_parts(13_440_000, 1489)
                    .saturating_add(theirs.reads(1))
                    .saturating_add(theirs.writes(1))
            )
        );
        assert_eq!(
            weights.release_deposit(),
            outside(
                sp_weights::Weight::from_parts(72_921_000, 3622)
                    .saturating_add(theirs.reads(3))
                    .saturating_add(theirs.writes(2))
            )
        );
    }
}

#[test]
fn utility_weights() {
    let weights = UtilityWeight::new();
    assert_eq!(weights.batch(0), w(5_934_467, 0));
    assert_eq!(weights.batch(1), w(5_934_467 + 3_241_628, 0));
    assert_eq!(weights.batch(1000), w(5_934_467 + 3_241_628_000, 0));
    assert_eq!(weights.batch(u32::MAX), w(5_934_467 + 3_241_628 * (u32::MAX as u64), 0));
    assert_eq!(weights.as_derivative(), w(4_799_000, 0));
    assert_eq!(weights.batch_all(0), w(5_240_000, 0));
    assert_eq!(weights.batch_all(10), w(5_240_000 + 34_898_880, 0));
    assert_eq!(weights.dispatch_as(), w(7_400_000, 0));
    assert_eq!(weights.force_batch(0), w(6_563_475, 0));
    assert_eq!(weights.force_batch(1000), w(6_563_475 + 3_246_870_000, 0));
}

#[test]
fn utility_weights_agree_with_the_weights_of_the_runtime() {
    let weights = UtilityWeight::new();
    for c in [0u32, 1, 7, 1000, u32::MAX] {
        assert_eq!(
            weights.force_batch(c),
            outside(
                sp_weights::Weight::from_parts(6_563_475, 0)
                    .saturating_add(sp_weights::Weight::from_parts(3_246_870, 0).saturating_mul(c.into()))
            )
        );
    }
}

#[test]
fn artists_weights() {
    let weights = SubstrateWeight::new(ROCKS_DB);
    assert_eq!(
        weights.force_create(0, 0, 0),
        w(2_715_072_000 + 100_000_000 + 400_000_000, 0)
    );
    assert_eq!(
        weights.force_create(2, 3, 99),
        w(2_715_072_000 + 24_446_000 + 35_790_000 + 500_000_000, 0)
    );
    assert_eq!(weights.force_create(2, 3, 0), weights.force_create(2, 3, u32::MAX));
    let free = SubstrateWeight::new(RuntimeDbWeight { read: 0, write: 0 });
    assert_eq!(
        free.force_create(u32::MAX, u32::MAX, 0),
        w(2_715_072_000 + (12_223_000 + 11_930_000) * (u32::MAX as u64), 0)
    );
    let priceless = SubstrateWeight::new(RuntimeDbWeight { read: u64::MAX, write: 1 });
    assert_eq!(priceless.force_create(1, 1, 1), w(u64::MAX, 0));
}
