use genetic::generation::generate_genitors;
use genetic::methods::SexMethod;
use genetic::mutation::mutate;
use genetic::mutation::mutate_gene;
use genetic::mutation::mutate_genes;
use genetic::rate::Rate;
use genetic::reproduction::draw_points;
use genetic::reproduction::reproduce;
use rand::rngs::StdRng;
use rand::Rng;
use rand::SeedableRng;

fn hex() -> Vec<u8> {
    b"0123456789ABCDEF".to_vec()
}

fn switches(parent: &(Vec<u8>, Vec<u8>), child: &(Vec<u8>, Vec<u8>)) -> usize {
    let mut test = child.0[0] == parent.0[0] && child.1[0] == parent.1[0];
    let mut count = 0;
    for j in 0..parent.0.len() {
        let kept = child.0[j] == parent.0[j] && child.1[j] == parent.1[j];
        if test != kept {
            test = !test;
            count += 1;
        }
    }
    count
}

// Ensure mutated genotypes are different
#[test]
fn mutate_works() {
    let mut rng = StdRng::seed_from_u64(1);
    let child = (b"0123456789ABCDEF".to_vec(), b"FEDCBA9876543210".to_vec());
    let mutated = mutate(child.clone(), Rate::always(), &hex(), true, &mut rng);

    assert_ne!(child, mutated);
}

// Ensure non-mutated genotypes are not different
#[test]
fn mutate_probability_works() {
    let mut rng = StdRng::seed_from_u64(2);
    let child = (b"0123456789ABCDEF".to_vec(), b"FEDCBA9876543210".to_vec());
    let mutated = mutate(child.clone(), Rate::never(), &hex(), false, &mut rng);

    assert_eq!(child, mutated);
}

// Ensure that if mutations are forced, all of
// the mutated genes have different alleles
#[test]
fn mutate_forced_mutations() {
    let mut rng = StdRng::seed_from_u64(3);
    let child = (b"ABCD".to_vec(), b"DCBA".to_vec());
    let mutated = mutate(child.clone(), Rate::always(), &b"ABCD".to_vec(), true, &mut rng);

    for (old, new) in child.0.iter().zip(mutated.0.iter()) {
        assert_ne!(old, new);
    }

    for (old, new) in child.1.iter().zip(mutated.1.iter()) {
        assert_ne!(old, new);
    }
}

// Be mostly sure that if mutations are not forced,
// not all of the mutated genes have different alleles
#[test]
fn mutate_unforced_mutations() {
    let mut rng = StdRng::seed_from_u64(4);
    let mutated = mutate(
        (b"AAAAAAAAAAAAAAAA".to_vec(), b"BBBBBBBBBBBBBBBB".to_vec()),
        Rate::always(),
        &b"AB".to_vec(),
        false,
        &mut rng,
    );

    assert!(mutated.0.contains(&b'B'), "Holy moly, the chances of this failing are 0.000015%");
    assert!(mutated.1.contains(&b'A'), "Holy moly, the chances of this failing are 0.000015%");
}

// Ensure that parents/genitors have a chance to carry over to the next generation
#[test]
fn reproduce_carry_over_parents() {
    let mut rng = StdRng::seed_from_u64(5);
    let parent = (b"ABCD".to_vec(), b"DCBA".to_vec());

    assert_eq!(
        parent,
        reproduce(
            parent.clone(),
            SexMethod::Uniform,
            &b"ABCD".to_vec(),
            Rate::never(),
            Rate::always(),
            false,
            &mut rng
        )
    );
}

// Ensure resulting children share genes with parents
#[test]
fn reproduce_children_inherit_parent_genes() {
    let mut rng = StdRng::seed_from_u64(6);
    let parent = (b"ABCD".to_vec(), b"DCBA".to_vec());
    let child = reproduce(
        parent.clone(),
        SexMethod::Uniform,
        &b"ABCD".to_vec(),
        Rate::never(),
        Rate::never(),
        false,
        &mut rng,
    );

    assert!(child
        .0
        .iter()
        .zip(parent.0.iter().zip(parent.1.iter()))
        .fold(true, |same, (c, (p0, p1))| same && (c == p0 || c == p1)));

    assert!(child
        .1
        .iter()
        .zip(parent.0.iter().zip(parent.1.iter()))
        .fold(true, |same, (c, (p0, p1))| same && (c == p0 || c == p1)));
}

// Ensure reproduction method (number of crossover points) is respected
#[test]
fn reproduce_one_crossover_point() {
    let mut rng = StdRng::seed_from_u64(7);
    let parent = (b"0123456789ABCDEF".to_vec(), b"FEDCBA9876543210".to_vec());
    let child = reproduce(
        parent.clone(),
        SexMethod::One,
        &hex(),
        Rate::never(),
        Rate::never(),
        false,
        &mut rng,
    );

    assert_eq!(switches(&parent, &child), 1);
}

// Ensure reproduction method (number of crossover points) is respected
#[test]
fn reproduce_two_crossover_point() {
    let mut rng = StdRng::seed_from_u64(8);
    let parent = (b"0123456789ABCDEF".to_vec(), b"FEDCBA9876543210".to_vec());
    let child = reproduce(
        parent.clone(),
        SexMethod::Two,
        &hex(),
        Rate::never(),
        Rate::never(),
        false,
        &mut rng,
    );

    assert_eq!(switches(&parent, &child), 2);
}

// Ensure reproduction method (number of crossover points) is respected
#[test]
fn reproduce_uniform_crossover_point() {
    let mut rng = StdRng::seed_from_u64(9);
    let parent = (b"0123456789ABCDEF".to_vec(), b"FEDCBA9876543210".to_vec());
    let child = reproduce(
        parent.clone(),
        SexMethod::Uniform,
        &hex(),
        Rate::never(),
        Rate::never(),
        false,
        &mut rng,
    );

    assert!(switches(&parent, &child) > 2);
}

// Ensure the correct number of genitors are created
#[test]
fn generate_genitors_correct_population() {
    let mut rng = StdRng::seed_from_u64(10);
    let population = rng.gen_range(10..200);
    assert_eq!(population, generate_genitors(population, 10, &b"ABCD".to_vec(), &mut rng).len());
}

// Ensure the genitors have the correct alphabet
#[test]
fn generate_genitors_correct_alphabet() {
    let mut rng = StdRng::seed_from_u64(11);
    let population = rng.gen_range(10..100);
    let alphabet = b"ABCD".to_vec();
    assert!(generate_genitors(population, 10, &alphabet, &mut rng)
        .iter()
        .fold(true, |good, genitor| good
            && genitor.iter().fold(true, |g, c| g && alphabet.contains(c))));
}

// Ensure the genitors have the correct length
#[test]
fn generate_genitors_correct_length() {
    let mut rng = StdRng::seed_from_u64(12);
    let population = rng.gen_range(10..100);
    let length = 10;
    assert!(generate_genitors(population, length, &b"ABCD".to_vec(), &mut rng)
        .iter()
        .fold(true, |good, genitor| good && genitor.len() == length));
}

#[test]
fn generate_genitors_of_nothing() {
    let mut rng = StdRng::seed_from_u64(13);
    assert!(generate_genitors(0, 10, &b"AB".to_vec(), &mut rng).is_empty());
    let short = generate_genitors(3, 0, &b"AB".to_vec(), &mut rng);
    assert_eq!(short, vec![Vec::<u8>::new(), Vec::new(), Vec::new()]);
}

#[test]
fn mutate_at_rate_zero_is_a_no_op_even_when_forced() {
    let mut rng = StdRng::seed_from_u64(14);
    let child = (b"ABBA".to_vec(), b"BAAB".to_vec());
    assert_eq!(mutate(child.clone(), Rate::never(), &b"AB".to_vec(), true, &mut rng), child);
}

#[test]
fn forced_mutation_over_two_symbols_flips_every_gene() {
    let mut rng = StdRng::seed_from_u64(15);
    let mutated = mutate(
        (b"ABBA".to_vec(), b"AAAA".to_vec()),
        Rate::always(),
        &b"AB".to_vec(),
        true,
        &mut rng,
    );
    assert_eq!(mutated, (b"BAAB".to_vec(), b"BBBB".to_vec()));
}

#[test]
fn mutation_keeps_to_the_alphabet() {
    let mut rng = StdRng::seed_from_u64(16);
    let half = Rate::new(1, 2).unwrap();
    let alphabet = b"XYZ".to_vec();
    for _ in 0..50 {
        let mut genes = b"XXYYZZXXYYZZ".to_vec();
        mutate_genes(&mut genes, half, &alphabet, false, &mut rng);
        assert_eq!(genes.len(), 12);
        assert!(genes.iter().all(|g| alphabet.contains(g)));
    }
}

#[test]
fn unforced_mutation_over_many_trials_changes_something() {
    let mut rng = StdRng::seed_from_u64(17);
    let before = b"AAAAAAAAAAAAAAAA".to_vec();
    let mut changed = false;
    for _ in 0..20 {
        let mut genes = before.clone();
        mutate_genes(&mut genes, Rate::always(), &b"AB".to_vec(), false, &mut rng);
        changed = changed || genes != before;
    }
    assert!(changed);
}

#[test]
fn mutate_gene_picks_by_the_draw() {
    let alphabet = b"ABCD".to_vec();
    // unforced: the draw indexes the alphabet
    assert_eq!(mutate_gene(b'B', &alphabet, false, 0), b'A');
    assert_eq!(mutate_gene(b'B', &alphabet, false, 1), b'B');
    assert_eq!(mutate_gene(b'B', &alphabet, false, 3), b'D');
    // forced: the draw indexes the alphabet without the current symbol
    assert_eq!(mutate_gene(b'B', &alphabet, true, 0), b'A');
    assert_eq!(mutate_gene(b'B', &alphabet, true, 1), b'C');
    assert_eq!(mutate_gene(b'B', &alphabet, true, 2), b'D');
    assert_eq!(mutate_gene(b'A', &alphabet, true, 0), b'B');
    assert_eq!(mutate_gene(b'D', &alphabet, true, 2), b'C');
    // a symbol outside the alphabet is simply replaced
    assert_eq!(mutate_gene(b'Z', &alphabet, true, 2), b'C');
}

#[test]
fn reproduce_with_skip_one_ignores_every_other_setting() {
    let mut rng = StdRng::seed_from_u64(18);
    let parent = (b"0101".to_vec(), b"1010".to_vec());
    for method in [SexMethod::One, SexMethod::Two, SexMethod::Uniform] {
        for force in [false, true] {
            let child = reproduce(
                parent.clone(),
                method,
                &b"01".to_vec(),
                Rate::always(),
                Rate::always(),
                force,
                &mut rng,
            );
            assert_eq!(child, parent);
        }
    }
}

#[test]
fn reproduce_keeps_lengths_under_mutation() {
    let mut rng = StdRng::seed_from_u64(19);
    let parent = (b"00000000".to_vec(), b"11111111".to_vec());
    let third = Rate::new(1, 3).unwrap();
    for _ in 0..30 {
        let child = reproduce(parent.clone(), SexMethod::Two, &b"01".to_vec(), third, third, true, &mut rng);
        assert_eq!(child.0.len(), 8);
        assert_eq!(child.1.len(), 8);
    }
}

#[test]
fn draw_points_gives_increasing_points_inside_the_genotype() {
    let mut rng = StdRng::seed_from_u64(20);
    for _ in 0..100 {
        let one = draw_points(SexMethod::One, 16, &mut rng);
        assert_eq!(one.len(), 1);
        assert!(1 <= one[0] && one[0] < 16);
        let two = draw_points(SexMethod::Two, 16, &mut rng);
        assert_eq!(two.len(), 2);
        assert!(1 <= two[0] && two[0] < two[1] && two[1] < 16);
        let many = draw_points(SexMethod::Uniform, 16, &mut rng);
        assert!(3 <= many.len() && many.len() < 16);
        assert!(many.windows(2).all(|w| w[0] < w[1]));
        assert!(many.iter().all(|p| 1 <= *p && *p < 16));
    }
}

#[test]
fn draw_points_on_short_genotypes() {
    let mut rng = StdRng::seed_from_u64(21);
    assert!(draw_points(SexMethod::One, 0, &mut rng).is_empty());
    assert!(draw_points(SexMethod::One, 1, &mut rng).is_empty());
    assert_eq!(draw_points(SexMethod::One, 2, &mut rng), vec![1]);
    assert_eq!(draw_points(SexMethod::Two, 2, &mut rng), vec![1]);
    assert_eq!(draw_points(SexMethod::Two, 3, &mut rng), vec![1, 2]);
    assert_eq!(draw_points(SexMethod::Uniform, 4, &mut rng), vec![1, 2, 3]);
}

#[test]
fn mutate_at_rate_zero_needs_no_alphabet() {
    let mut rng = StdRng::seed_from_u64(22);
    let child = (b"0123".to_vec(), b"3210".to_vec());
    for force in [false, true] {
        assert_eq!(mutate(child.clone(), Rate::never(), &vec![], force, &mut rng), child);
        assert_eq!(mutate(child.clone(), Rate::never(), &b"AA".to_vec(), force, &mut rng), child);
    }
}

#[test]
fn reproduce_with_skip_one_needs_no_alphabet() {
    let mut rng = StdRng::seed_from_u64(23);
    let parent = (b"AB".to_vec(), b"BA".to_vec());
    let child = reproduce(
        parent.clone(),
        SexMethod::Uniform,
        &vec![],
        Rate::always(),
        Rate::always(),
        true,
        &mut rng,
    );
    assert_eq!(child, parent);
}

#[test]
fn reproduce_at_rate_zero_needs_no_alphabet() {
    let mut rng = StdRng::seed_from_u64(24);
    let parent = (b"AAAA".to_vec(), b"BBBB".to_vec());
    let child = reproduce(parent, SexMethod::One, &vec![], Rate::never(), Rate::never(), false, &mut rng);
    assert!([b"BAAA".to_vec(), b"BBAA".to_vec(), b"BBBA".to_vec()].contains(&child.0));
}
