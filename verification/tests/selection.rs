use genetic::fitness::Fitness;
use genetic::fitness::FITNESS_UNIT;
use genetic::genotype::Genotype;
use genetic::methods::SelectionMethod;
use genetic::ranking::best_of;
use genetic::ranking::sort_by_fitness;
use genetic::selection::give;
use genetic::selection::remainder_pass;
use genetic::selection::select_equal;
use genetic::selection::select_genitors;
use genetic::selection::select_remainder;
use genetic::selection::select_replacement;
use genetic::selection::shares;
use genetic::selection::total_score;
use genetic::selection::weigh;
use genetic::selection::weights_fit;
use genetic::selection::weights_for;
use genetic::selection::WEIGHT_FLOOR;
use rand::rngs::StdRng;
use rand::SeedableRng;

fn scored(genes: &[u8], fitness: Fitness) -> Genotype {
    Genotype::from(genes.to_vec(), fitness)
}

fn population() -> Vec<Genotype> {
    vec![
        scored(b"AAAA", Fitness::Valid(900_000)),
        scored(b"BBBB", Fitness::Valid(600_000)),
        scored(b"CCCC", Fitness::Invalid),
        scored(b"DDDD", Fitness::Valid(100_000)),
        scored(b"EEEE", Fitness::Valid(0)),
    ]
}

fn is_copy(g: &Genotype, population: &[Genotype]) -> bool {
    population.iter().any(|p| p.genotype == g.genotype && p.fitness == g.fitness)
}

fn best_first(pool: &[Genotype]) -> bool {
    pool.windows(2).all(|w| w[0].fitness >= w[1].fitness)
}

#[test]
fn every_strategy_fills_the_pool_exactly() {
    let mut rng = StdRng::seed_from_u64(1);
    let population = population();
    for method in [SelectionMethod::Equal, SelectionMethod::Remainder, SelectionMethod::Replacement] {
        for size in [0usize, 1, 4, 5, 10, 37] {
            let pool = select_genitors(&population, size, method, &mut rng);
            assert_eq!(pool.len(), size);
            assert!(pool.iter().all(|g| is_copy(g, &population)));
            assert!(best_first(&pool));
        }
    }
}

#[test]
fn every_strategy_works_on_a_population_without_valid_scores() {
    let mut rng = StdRng::seed_from_u64(2);
    let population = vec![scored(b"AA", Fitness::Invalid), scored(b"BB", Fitness::Valid(0))];
    for method in [SelectionMethod::Equal, SelectionMethod::Remainder, SelectionMethod::Replacement] {
        let pool = select_genitors(&population, 6, method, &mut rng);
        assert_eq!(pool.len(), 6);
        assert!(pool.iter().all(|g| is_copy(g, &population)));
    }
}

#[test]
fn selection_from_a_single_genotype_copies_it() {
    let mut rng = StdRng::seed_from_u64(3);
    let population = vec![scored(b"ONLY", Fitness::Valid(5))];
    for method in [SelectionMethod::Equal, SelectionMethod::Remainder, SelectionMethod::Replacement] {
        let pool = select_genitors(&population, 3, method, &mut rng);
        assert_eq!(pool.len(), 3);
        assert!(pool.iter().all(|g| g.genotype == b"ONLY".to_vec()));
    }
}

#[test]
fn equal_selection_reaches_every_genotype() {
    let mut rng = StdRng::seed_from_u64(4);
    let population = population();
    let pool = select_equal(&population, 200, &mut rng);
    assert_eq!(pool.len(), 200);
    for p in &population {
        assert!(pool.iter().any(|g| g.genotype == p.genotype));
    }
}

#[test]
fn replacement_selection_favours_the_fit() {
    let mut rng = StdRng::seed_from_u64(5);
    let population = population();
    let pool = select_replacement(&population, 1000, &mut rng);
    assert_eq!(pool.len(), 1000);
    let best = pool.iter().filter(|g| g.genotype == b"AAAA".to_vec()).count();
    let weak = pool.iter().filter(|g| g.genotype == b"DDDD".to_vec()).count();
    assert!(best > weak);
    // invalid genotypes keep the floor weight, so they are rare but possible
    let invalid = pool.iter().filter(|g| g.genotype == b"CCCC".to_vec()).count();
    assert!(invalid < 100);
}

#[test]
fn remainder_pass_gives_whole_shares_and_skips_invalid_genotypes() {
    let mut rng = StdRng::seed_from_u64(6);
    // scores 6, 3, invalid, 1, 0; sum 10 over 5 genotypes: shares 3, 1.5, -, 0.5, 0
    let population = vec![
        scored(b"AAAA", Fitness::Valid(6)),
        scored(b"BBBB", Fitness::Valid(3)),
        scored(b"CCCC", Fitness::Invalid),
        scored(b"DDDD", Fitness::Valid(1)),
        scored(b"EEEE", Fitness::Valid(0)),
    ];
    let sum = total_score(&population);
    assert_eq!(sum, 10);
    for _ in 0..50 {
        let mut pool = Vec::new();
        let pushed = remainder_pass(&population, sum, &mut pool, 100, &mut rng);
        assert_eq!(pushed, pool.len());
        let count = |genes: &[u8]| pool.iter().filter(|g| g.genotype == genes.to_vec()).count();
        assert_eq!(count(b"AAAA"), 3);
        assert!(count(b"BBBB") == 1 || count(b"BBBB") == 2);
        assert_eq!(count(b"CCCC"), 0);
        assert!(count(b"DDDD") <= 1);
        assert_eq!(count(b"EEEE"), 0);
    }
}

#[test]
fn remainder_pass_stops_when_the_pool_is_full() {
    let mut rng = StdRng::seed_from_u64(7);
    let population = vec![scored(b"AAAA", Fitness::Valid(6)), scored(b"BBBB", Fitness::Valid(6))];
    let mut pool = vec![scored(b"AAAA", Fitness::Valid(6))];
    let pushed = remainder_pass(&population, 12, &mut pool, 2, &mut rng);
    assert_eq!(pushed, 1);
    assert_eq!(pool.len(), 2);
}

#[test]
fn remainder_selection_fills_the_pool() {
    let mut rng = StdRng::seed_from_u64(8);
    let population = population();
    let pool = select_remainder(&population, 23, &mut rng);
    assert_eq!(pool.len(), 23);
    let best = pool.iter().filter(|g| g.genotype == b"AAAA".to_vec()).count();
    let weak = pool.iter().filter(|g| g.genotype == b"DDDD".to_vec()).count();
    assert!(best > weak);
}

#[test]
fn shares_are_quotient_and_rest() {
    // score * count / sum
    assert_eq!(shares(6, 5, 10), (3, 0));
    assert_eq!(shares(3, 5, 10), (1, 5));
    assert_eq!(shares(1, 5, 10), (0, 5));
    assert_eq!(shares(0, 5, 10), (0, 0));
    assert_eq!(shares(7, 3, 7), (3, 0));
    assert_eq!(shares(7, 3, 0), (0, 0));
    assert_eq!(shares(u64::MAX, 2, u64::MAX as u128), (2, 0));
}

#[test]
fn weights_have_a_floor() {
    assert_eq!(WEIGHT_FLOOR, FITNESS_UNIT / 100);
    assert_eq!(weigh(&Fitness::Invalid), WEIGHT_FLOOR);
    assert_eq!(weigh(&Fitness::Valid(0)), WEIGHT_FLOOR);
    assert_eq!(weigh(&Fitness::Valid(WEIGHT_FLOOR)), WEIGHT_FLOOR);
    assert_eq!(weigh(&Fitness::Valid(WEIGHT_FLOOR + 1)), WEIGHT_FLOOR + 1);
    assert_eq!(weigh(&Fitness::Valid(u64::MAX)), u64::MAX);
    assert_eq!(weights_for(&population()), vec![900_000, 600_000, 10_000, 100_000, 10_000]);
}

#[test]
fn weights_fit_unless_they_overflow() {
    assert!(weights_fit(&population()));
    assert!(weights_fit(&vec![]));
    assert!(weights_fit(&vec![scored(b"A", Fitness::Valid(u64::MAX))]));
    let heavy = vec![scored(b"A", Fitness::Valid(u64::MAX)), scored(b"B", Fitness::Invalid)];
    assert!(!weights_fit(&heavy));
}

#[test]
fn total_score_counts_valid_scores_only() {
    assert_eq!(total_score(&population()), 1_600_000);
    assert_eq!(total_score(&vec![]), 0);
    let big = vec![scored(b"A", Fitness::Valid(u64::MAX)), scored(b"B", Fitness::Valid(u64::MAX))];
    assert_eq!(total_score(&big), 2 * (u64::MAX as u128));
}

#[test]
fn sort_by_fitness_puts_the_best_first() {
    let mut genotypes = population();
    genotypes.reverse();
    sort_by_fitness(&mut genotypes);
    let order: Vec<Vec<u8>> = genotypes.iter().map(|g| g.genotype.clone()).collect();
    assert_eq!(
        order,
        vec![b"AAAA".to_vec(), b"BBBB".to_vec(), b"DDDD".to_vec(), b"EEEE".to_vec(), b"CCCC".to_vec()]
    );
}

#[test]
fn best_of_finds_the_best() {
    let genotypes = population();
    assert_eq!(best_of(&genotypes).unwrap().genotype, b"AAAA".to_vec());
    assert!(best_of(&vec![]).is_none());
    let invalid = vec![scored(b"X", Fitness::Invalid)];
    assert_eq!(best_of(&invalid).unwrap().genotype, b"X".to_vec());
}

#[test]
fn give_adds_copies_as_far_as_there_is_room() {
    let genotype = scored(b"AAAA", Fitness::Valid(1));
    let mut pool = vec![scored(b"BBBB", Fitness::Valid(2))];
    assert_eq!(give(&genotype, 2, &mut pool, 10), 2);
    assert_eq!(pool.len(), 3);
    assert_eq!(pool[0].genotype, b"BBBB".to_vec());
    assert_eq!(pool[1].genotype, b"AAAA".to_vec());
    assert_eq!(pool[2].fitness, Fitness::Valid(1));
    assert_eq!(give(&genotype, 100, &mut pool, 10), 7);
    assert_eq!(pool.len(), 10);
    assert_eq!(give(&genotype, 1, &mut pool, 10), 0);
    assert_eq!(give(&genotype, 0, &mut pool, 20), 0);
    assert_eq!(pool.len(), 10);
}
