use froggy_rand::hasher::hash_bytes;
use froggy_rand::key::Key;
use froggy_rand::mix::split_mix_64;
use froggy_rand::generator::{hash, FroggyRand, InvalidArgument};

#[test]
fn same_hashes() {
    let froggy_rand = FroggyRand::new(100);
    let val0 = froggy_rand.gen(&Key::tagged("test", 0));
    let val1 = froggy_rand.gen(&Key::tagged("test", 0));
    assert_eq!(val0, val1);
}

#[test]
fn different_hashes() {
    let froggy_rand = FroggyRand::new(100);
    let val0 = froggy_rand.gen(&Key::tagged("test", 0));
    let val1 = froggy_rand.gen(&Key::tagged("test", 1));
    let val2 = froggy_rand.gen(&Key::tagged("test_other", 0));
    let val3 = froggy_rand.gen(&Key::tagged("test_other", 1));

    assert_ne!(val0, val1);
    assert_ne!(val0, val2);
    assert_ne!(val0, val3);

    assert_ne!(val1, val0);
    assert_ne!(val1, val2);
    assert_ne!(val1, val3);

    assert_ne!(val2, val0);
    assert_ne!(val2, val1);
    assert_ne!(val2, val3);

    assert_ne!(val3, val0);
    assert_ne!(val3, val1);
    assert_ne!(val3, val2);
}

#[test]
fn mixer_matches_known_vector() {
    assert_eq!(split_mix_64(0), 0xE220A8397B1DCDAF);
    assert_eq!(split_mix_64(0), 16294208416658607535);
}

#[test]
fn mixer_wraps_at_the_top() {
    let a = split_mix_64(u64::MAX);
    let b = split_mix_64(u64::MAX - 1);
    assert_ne!(a, b);
    assert_ne!(a, u64::MAX);
}

#[test]
fn hasher_of_nothing_is_the_initial_lanes() {
    assert_eq!(hash_bytes(&[]), 0xdeadbeefdeadbeef);
}

#[test]
fn hasher_matches_known_vector() {
    assert_eq!(hash_bytes(b"Four score and seven years ago"), 0xce7226e617770551);
}

#[test]
fn hasher_block_boundaries() {
    let bytes: Vec<u8> = (0u8..25).collect();
    assert_eq!(hash_bytes(&bytes[..12]), 0x0cb6e7e95e4aa593);
    assert_eq!(hash_bytes(&bytes[..13]), 0x6bff0f35bc9d6816);
    assert_eq!(hash_bytes(&bytes), 0x68519ca63a882244);
}

#[test]
fn hasher_tells_trailing_zeros_apart() {
    assert_ne!(hash_bytes(&[1]), hash_bytes(&[1, 0]));
    assert_ne!(hash_bytes(&[]), hash_bytes(&[0]));
}

#[test]
fn key_serialisation_of_text_and_integer() {
    let key = Key::tagged("ab", 1);
    assert_eq!(
        key.as_bytes(),
        &[1, 2, 0, 0, 0, 0, 0, 0, 0, 0x61, 0x62, 2, 1, 0, 0, 0, 0, 0, 0, 0][..]
    );
}

#[test]
fn key_serialisation_of_negative_integer() {
    let key = Key::new().with_int(-1);
    assert_eq!(key.as_bytes(), &[2, 0xff, 0xff, 0xff, 0xff, 0xff, 0xff, 0xff, 0xff][..]);
    let key = Key::new().with_int(-2);
    assert_eq!(key.as_bytes(), &[2, 0xfe, 0xff, 0xff, 0xff, 0xff, 0xff, 0xff, 0xff][..]);
}

#[test]
fn key_serialisation_of_index() {
    let key = Key::new().with_index(0x0102030405060708);
    assert_eq!(key.as_bytes(), &[3, 8, 7, 6, 5, 4, 3, 2, 1][..]);
}

#[test]
fn key_parts_keep_their_order() {
    let a = Key::new().with_text("x").with_int(3);
    let b = Key::new().with_int(3).with_text("x");
    assert_ne!(a.as_bytes(), b.as_bytes());
    assert_eq!(a.as_bytes(), Key::tagged("x", 3).as_bytes());
}

#[test]
fn key_parts_of_different_kinds_differ() {
    let int = Key::new().with_int(3);
    let index = Key::new().with_index(3);
    let text = Key::new().with_text("3");
    assert_ne!(int.as_bytes(), index.as_bytes());
    assert_ne!(int.as_bytes(), text.as_bytes());
    assert_ne!(hash(&int), hash(&index));
}

#[test]
fn key_texts_do_not_run_together() {
    let a = Key::new().with_text("ab").with_text("c");
    let b = Key::new().with_text("a").with_text("bc");
    assert_ne!(a.as_bytes(), b.as_bytes());
    let empty = Key::new().with_text("");
    assert_eq!(empty.as_bytes(), &[1, 0, 0, 0, 0, 0, 0, 0, 0][..]);
}

#[test]
fn key_text_is_its_utf8_bytes() {
    let key = Key::new().with_text("\u{e9}");
    assert_eq!(key.as_bytes(), &[1, 2, 0, 0, 0, 0, 0, 0, 0, 0xc3, 0xa9][..]);
}

#[test]
fn key_nesting_is_concatenation() {
    let inner = Key::tagged("inner", 4);
    let outer = Key::new().with_text("outer").with_key(&inner);
    let flat = Key::new().with_text("outer").with_text("inner").with_int(4);
    assert_eq!(outer.as_bytes(), flat.as_bytes());
    assert_eq!(Key::new().as_bytes().len(), 0);
}

#[test]
fn key_indexed_leaves_the_key_alone() {
    let key = Key::tagged("deck", 0);
    let first = key.indexed(7);
    assert_eq!(first.as_bytes(), Key::tagged("deck", 0).with_index(7).as_bytes());
    assert_eq!(key.as_bytes(), Key::tagged("deck", 0).as_bytes());
}

#[test]
fn key_digest_pinned() {
    assert_eq!(hash(&Key::tagged("test", 0)), 0x699b1bfce99493cd);
    assert_eq!(hash(&Key::tagged("test_other", 1)), 0x6904b71b1497fa87);
}

#[test]
fn gen_golden_vector() {
    let r = FroggyRand::new(100);
    assert_eq!(r.gen(&Key::tagged("test", 0)), 744476968544025751);
    assert_eq!(r.gen(&Key::tagged("test", 1)), 9147290373972681669);
    assert_eq!(r.gen(&Key::tagged("test_other", 0)), 3687135858876913390);
    assert_eq!(r.gen(&Key::tagged("test_other", 1)), 11069004230515575865);
}

#[test]
fn gen_is_the_mixed_sum_of_seed_and_digest() {
    let key = Key::tagged("enemy_x", 17);
    let digest = hash(&key);
    let r = FroggyRand::new(u64::MAX);
    assert_eq!(r.gen(&key), split_mix_64(u64::MAX.wrapping_add(digest)));
}

#[test]
fn equal_seeds_draw_alike() {
    let a = FroggyRand::new(0xfeed);
    let b = FroggyRand::new(0xfeed);
    let copy = a;
    for i in 0..50 {
        let key = Key::tagged("slot", i);
        assert_eq!(a.gen(&key), b.gen(&key));
        assert_eq!(a.gen(&key), copy.gen(&key));
    }
}

#[test]
fn different_seeds_draw_apart() {
    let key = Key::tagged("slot", 3);
    let mut seen: Vec<u64> = Vec::new();
    for seed in 0..200u64 {
        let v = FroggyRand::new(seed).gen(&key);
        assert!(!seen.contains(&v));
        seen.push(v);
    }
}

#[test]
fn successive_ids_draw_apart() {
    let r = FroggyRand::new(9);
    let mut seen: Vec<u64> = Vec::new();
    for i in 0..200 {
        let v = r.gen(&Key::tagged("t", i));
        assert!(!seen.contains(&v));
        seen.push(v);
    }
    assert_ne!(r.gen(&Key::tagged("a", 0)), r.gen(&Key::tagged("b", 0)));
}

#[test]
fn channels_do_not_disturb_each_other() {
    let r = FroggyRand::new(2024);
    let x_before: Vec<u64> = (0..100).map(|i| r.gen(&Key::tagged("x", i))).collect();
    let mut x_after: Vec<u64> = Vec::new();
    for i in 0..100 {
        x_after.push(r.gen(&Key::tagged("x", i)));
        let _weapon = r.gen(&Key::tagged("weapon", i));
    }
    assert_eq!(x_before, x_after);
}

#[test]
fn from_hash_takes_the_digest_as_seed() {
    let key = Key::new().with_text("shared");
    assert_eq!(FroggyRand::from_hash(&key).seed, 4537416310308078317);
    assert_eq!(FroggyRand::from_hash(&key).seed, hash(&key));
}

#[test]
fn subrand_seed_is_digest_of_key_then_seed() {
    let r = FroggyRand::new(100);
    let a = r.subrand(&Key::new().with_text("a"));
    let b = r.subrand(&Key::new().with_text("b"));
    assert_eq!(a.seed, 3028871186332922491);
    assert_eq!(b.seed, 18090422280235796783);
    assert_eq!(a.seed, hash(&Key::new().with_text("a").with_index(100)));
    assert_ne!(a.seed, r.seed);
}

#[test]
fn subrands_draw_apart() {
    let r = FroggyRand::new(100);
    let k = Key::tagged("test", 0);
    let a = r.subrand(&Key::new().with_text("a")).gen(&k);
    let b = r.subrand(&Key::new().with_text("b")).gen(&k);
    assert_eq!(a, 12477123400259509900);
    assert_eq!(b, 4526902732911529670);
    assert_ne!(a, b);
    assert_ne!(a, r.gen(&k));
}

#[test]
fn unit_steps_exact_and_bounded() {
    let r = FroggyRand::new(100);
    assert_eq!(r.gen_unit_steps(&Key::tagged("test", 0)), 25751);
    for i in 0..500 {
        let steps = r.gen_unit_steps(&Key::tagged("u", i));
        assert!(steps < 1_000_000);
        let unit = steps as f32 / 1_000_000.0;
        assert!(0.0 <= unit && unit < 1.0);
    }
}

#[test]
fn usize_range_exact_value() {
    let r = FroggyRand::new(100);
    assert_eq!(r.gen_usize_range(&Key::tagged("test", 0), 10, 20), 11);
}

#[test]
fn usize_range_is_inclusive() {
    let r = FroggyRand::new(5);
    let mut low = false;
    let mut high = false;
    for i in 0..400 {
        let v = r.gen_usize_range(&Key::tagged("r", i), 3, 6);
        assert!(3 <= v && v <= 6);
        low = low || v == 3;
        high = high || v == 6;
    }
    assert!(low && high);
}

#[test]
fn usize_range_of_one_value() {
    let r = FroggyRand::new(5);
    assert_eq!(r.gen_usize_range(&Key::tagged("r", 0), 7, 7), 7);
    assert_eq!(r.gen_usize_range(&Key::tagged("r", 1), usize::MAX, usize::MAX), usize::MAX);
}

#[test]
fn usize_range_over_everything() {
    let r = FroggyRand::new(5);
    let key = Key::tagged("r", 2);
    let wide = r.gen_usize_range(&key, 0, usize::MAX) as u128;
    assert_eq!(wide, (r.gen(&key) as u128) % (usize::MAX as u128 + 1));
}

#[test]
fn choose_exact_position() {
    let r = FroggyRand::new(100);
    let choices = [10, 11, 12, 13, 14, 15, 16];
    assert_eq!(*r.choose_from(&Key::tagged("test", 0), &choices), 13);
    assert_eq!(*r.choose_from(&Key::tagged("test", 0), &choices[..3]), 11);
}

#[test]
fn choose_returns_an_element_of_the_slice() {
    let r = FroggyRand::new(77);
    let choices = [String::from("a"), String::from("b"), String::from("c")];
    for i in 0..100 {
        let key = Key::tagged("c", i);
        let chosen = r.choose_from(&key, &choices);
        assert!(choices.iter().any(|c| std::ptr::eq(c, chosen)));
        let at = ((r.gen(&key) % (1u64 << 32)) % 3) as usize;
        assert!(std::ptr::eq(chosen, &choices[at]));
    }
}

#[test]
fn choose_among_one() {
    let r = FroggyRand::new(77);
    let choices = [42u8];
    assert_eq!(*r.choose_from(&Key::tagged("c", 0), &choices), 42);
}

#[test]
fn shuffle_exact_order() {
    let r = FroggyRand::new(100);
    let mut xs: Vec<u32> = (0..10).collect();
    r.shuffle(&Key::tagged("deck", 0), &mut xs);
    assert_eq!(xs, vec![9, 7, 1, 3, 5, 8, 4, 0, 2, 6]);
}

#[test]
fn shuffle_keeps_the_elements() {
    let r = FroggyRand::new(31);
    for len in 0..40usize {
        let mut xs: Vec<usize> = (0..len).map(|v| v % 7).collect();
        let mut before = xs.clone();
        r.shuffle(&Key::tagged("s", len as i64), &mut xs);
        let mut after = xs.clone();
        before.sort();
        after.sort();
        assert_eq!(before, after);
    }
}

#[test]
fn shuffle_of_none_or_one_is_a_no_op() {
    let r = FroggyRand::new(31);
    let mut none: Vec<u8> = Vec::new();
    r.shuffle(&Key::tagged("s", 0), &mut none);
    assert!(none.is_empty());
    let mut one = vec![9u8];
    r.shuffle(&Key::tagged("s", 0), &mut one);
    assert_eq!(one, vec![9u8]);
}

#[test]
fn shuffle_draws_each_exchange_under_key_and_position() {
    let r = FroggyRand::new(8);
    let key = Key::tagged("deck", 5);
    let mut xs = vec!['a', 'b', 'c', 'd'];
    r.shuffle(&key, &mut xs);
    let mut ys = vec!['a', 'b', 'c', 'd'];
    for i in 0..3usize {
        let j = r.gen_usize_range(&key.indexed(i as u64), i, 3);
        ys.swap(i, j);
    }
    assert_eq!(xs, ys);
}

#[test]
fn byte_exact_and_never_255() {
    let r = FroggyRand::new(100);
    assert_eq!(r.gen_byte(&Key::tagged("test", 0)), 196);
    for i in 0..2000 {
        let key = Key::tagged("b", i);
        let b = r.gen_byte(&key);
        assert_ne!(b, 255);
        assert_eq!(b as u64, r.gen(&key) % 255);
    }
}

#[test]
fn perf_adds_the_integer_to_the_seed() {
    assert_eq!(FroggyRand::new(0).gen_perf(0), 0xE220A8397B1DCDAF);
    assert_eq!(FroggyRand::new(7).gen_perf(-3), 7958955049054603978);
    assert_eq!(FroggyRand::new(7).gen_perf(-3), split_mix_64(4));
    assert_eq!(FroggyRand::new(0).gen_perf(-1), 16490336266968443936);
    assert_eq!(FroggyRand::new(0).gen_perf(-1), split_mix_64(u64::MAX));
    assert_eq!(FroggyRand::new(u64::MAX).gen_perf(1), split_mix_64(0));
}

#[test]
fn perf_is_not_gen_of_the_integer() {
    let r = FroggyRand::new(100);
    assert_ne!(r.gen_perf(5), r.gen(&Key::new().with_int(5)));
}

#[test]
fn perf_unit_steps_exact_and_bounded() {
    let r = FroggyRand::new(100);
    assert_eq!(r.gen_unit_perf_steps(5), 570131);
    for i in -200..200 {
        assert!(r.gen_unit_perf_steps(i) < 1_000_000);
    }
}

#[test]
fn choosing_from_nothing_is_an_error() {
    let r = FroggyRand::new(77);
    let none: [u8; 0] = [];
    assert_eq!(
        r.try_choose(&Key::tagged("c", 0), &none),
        Err(InvalidArgument::EmptyChoices)
    );
}

#[test]
fn try_choose_agrees_with_choose() {
    let r = FroggyRand::new(100);
    let choices = [10, 11, 12, 13, 14, 15, 16];
    let key = Key::tagged("test", 0);
    assert_eq!(r.try_choose(&key, &choices), Ok(&13));
    assert_eq!(r.try_choose(&key, &choices), Ok(r.choose_from(&key, &choices)));
}

#[test]
fn inverted_range_is_an_error() {
    let r = FroggyRand::new(5);
    let key = Key::tagged("r", 0);
    assert_eq!(r.try_gen_usize_range(&key, 4, 3), Err(InvalidArgument::InvertedRange));
    assert_eq!(
        r.try_gen_usize_range(&key, usize::MAX, 0),
        Err(InvalidArgument::InvertedRange)
    );
}

#[test]
fn try_range_agrees_with_range() {
    let r = FroggyRand::new(100);
    let key = Key::tagged("test", 0);
    assert_eq!(r.try_gen_usize_range(&key, 10, 20), Ok(11));
    assert_eq!(r.try_gen_usize_range(&key, 3, 3), Ok(3));
}

#[test]
fn froggy_steps_are_unit_draws_under_key_and_number() {
    let r = FroggyRand::new(12);
    let key = Key::tagged("bell", 2);
    let steps = r.gen_froggy_steps(&key, 5);
    assert_eq!(steps.len(), 5);
    for i in 0..5u64 {
        assert_eq!(steps[i as usize], r.gen_unit_steps(&key.indexed(i)));
        assert_eq!(steps[i as usize] as u64, r.gen(&key.indexed(i)) % 1_000_000);
    }
    assert!(r.gen_froggy_steps(&key, 0).is_empty());
}

#[test]
fn mixer_sends_different_indices_apart() {
    let mut seen: Vec<u64> = (0..2000u64).map(split_mix_64).collect();
    seen.sort();
    seen.dedup();
    assert_eq!(seen.len(), 2000);
}

#[test]
fn tagged_keys_differ_in_serialisation() {
    let a = Key::tagged("t", 0);
    assert_ne!(a.as_bytes(), Key::tagged("t", 1).as_bytes());
    assert_ne!(a.as_bytes(), Key::tagged("u", 0).as_bytes());
    assert_ne!(a.as_bytes(), Key::tagged("t", -1).as_bytes());
    assert_eq!(a.as_bytes(), a.clone().as_bytes());
}
