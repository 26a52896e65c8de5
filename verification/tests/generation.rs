use genetic::champions::Champions;
use genetic::fitness::Fitness;
use genetic::generation::breed;
use genetic::generation::count_invalid;
use genetic::generation::Args;
use genetic::generation::Generation;
use genetic::genotype::Genotype;
use genetic::knapsack::Knapsack;
use genetic::methods::ProblemType;
use genetic::methods::SelectionMethod;
use genetic::methods::SexMethod;
use genetic::problem::Problem;
use genetic::rate::Rate;
use rand::rngs::StdRng;
use rand::SeedableRng;

fn four_items() -> Knapsack {
    // the best packing is items 1 and 3: weight 7, value 90
    Knapsack::new(10, vec![(5, 10), (4, 40), (6, 30), (3, 50)]).unwrap()
}

fn eight_items() -> Knapsack {
    Knapsack::new(
        20,
        vec![(5, 10), (4, 40), (6, 30), (3, 50), (7, 25), (2, 15), (9, 60), (1, 5)],
    )
    .unwrap()
}

fn settings() -> Args {
    Args {
        best: 1,
        force_create: false,
        detect_crowding: Rate::never(),
        evaluate: false,
        force_mutation: false,
        file: Vec::new(),
        genitors: Vec::new(),
        intermediate_population: 100,
        skip: Rate::new(1, 10).unwrap(),
        mutation_rate: Rate::new(1, 100).unwrap(),
        max_generations: 100,
        progress: false,
        population: 50,
        problem: ProblemType::Knapsack,
        selection_method: SelectionMethod::Equal,
        sex_method: SexMethod::One,
    }
}

fn best_first(population: &[Genotype]) -> bool {
    population.windows(2).all(|w| w[0].fitness >= w[1].fitness)
}

fn in_order<P: Problem>(generation: &Generation<P>) -> bool {
    generation.population.iter().all(|g| {
        g.genotype.len() == generation.problem.len() && g.fitness == generation.problem.fitness(&g.genotype)
    })
}

#[test]
fn from_fills_the_population() {
    let mut rng = StdRng::seed_from_u64(1);
    let generation = Generation::from(settings(), four_items(), &mut rng);
    assert_eq!(generation.population.len(), 50);
    assert_eq!(generation.capacity, 50);
    assert_eq!(generation.pool_capacity, 100);
    assert!(generation.intermediate.is_empty());
    assert!(best_first(&generation.population));
    assert!(in_order(&generation));
    assert_eq!(generation.max_generations, 100);
}

#[test]
fn from_keeps_and_evaluates_the_given_genitors() {
    let mut rng = StdRng::seed_from_u64(2);
    let mut args = settings();
    args.population = 5;
    args.genitors = vec![b"0101".to_vec(), b"1111".to_vec()];
    let generation = Generation::from(args, four_items(), &mut rng);
    assert_eq!(generation.population.len(), 5);
    assert_eq!(generation.population[0].genotype, b"0101".to_vec());
    assert_eq!(generation.population[0].fitness, Fitness::Valid(900_000));
    assert!(generation
        .population
        .iter()
        .any(|g| g.genotype == b"1111".to_vec() && g.fitness == Fitness::Invalid));
    assert!(best_first(&generation.population));
}

#[test]
fn from_only_evaluates_when_asked_to() {
    let mut rng = StdRng::seed_from_u64(3);
    let mut args = settings();
    args.evaluate = true;
    args.genitors = vec![b"1000".to_vec(), b"0101".to_vec(), b"1111".to_vec()];
    let generation = Generation::from(args, four_items(), &mut rng);
    let genes: Vec<Vec<u8>> = generation.population.iter().map(|g| g.genotype.clone()).collect();
    assert_eq!(genes, vec![b"0101".to_vec(), b"1000".to_vec(), b"1111".to_vec()]);
}

#[test]
fn the_pool_defaults_to_twice_the_population() {
    let mut rng = StdRng::seed_from_u64(4);
    let mut args = settings();
    args.population = 7;
    args.intermediate_population = 0;
    let mut generation = Generation::from(args, four_items(), &mut rng);
    assert_eq!(generation.pool_capacity, 14);
    generation.select_genitors(&mut rng);
    assert_eq!(generation.intermediate.len(), 14);
    assert!(best_first(&generation.intermediate));
}

#[test]
fn best_is_the_fittest_of_the_population() {
    let mut rng = StdRng::seed_from_u64(5);
    let mut args = settings();
    args.evaluate = true;
    args.genitors = vec![b"1000".to_vec(), b"0101".to_vec(), b"1111".to_vec()];
    let generation = Generation::from(args, four_items(), &mut rng);
    assert_eq!(generation.best().unwrap().genotype, b"0101".to_vec());

    let mut nobody = settings();
    nobody.evaluate = true;
    let empty = Generation::from(nobody, four_items(), &mut rng);
    assert!(empty.best().is_none());
}

#[test]
fn a_step_replaces_the_whole_population() {
    let mut rng = StdRng::seed_from_u64(6);
    for selection in [SelectionMethod::Equal, SelectionMethod::Remainder, SelectionMethod::Replacement] {
        for sex in [SexMethod::One, SexMethod::Two, SexMethod::Uniform] {
            let mut args = settings();
            args.population = 11;
            args.intermediate_population = 20;
            args.selection_method = selection;
            args.sex_method = sex;
            args.detect_crowding = Rate::always();
            let mut generation = Generation::from(args, eight_items(), &mut rng);
            for i in 1..10 {
                let report = generation.generate_generation(i, &mut rng);
                assert_eq!(report.generation, i);
                assert_eq!(generation.population.len(), 11);
                assert_eq!(generation.intermediate.len(), 20);
                assert!(best_first(&generation.population));
                assert!(best_first(&generation.intermediate));
                assert!(in_order(&generation));
                assert_eq!(report.invalid, count_invalid(&generation.population));
                assert_eq!(
                    report.invalid,
                    generation.population.iter().filter(|g| g.fitness == Fitness::Invalid).count()
                );
                assert_eq!(generation.mutation_rate.numerator(), 1);
                assert_eq!(generation.mutation_rate.denominator(), 100);
            }
        }
    }
}

#[test]
fn a_step_that_always_skips_carries_the_pool_over() {
    let mut rng = StdRng::seed_from_u64(7);
    let mut args = settings();
    args.skip = Rate::always();
    args.mutation_rate = Rate::always();
    args.population = 9;
    let mut generation = Generation::from(args, four_items(), &mut rng);
    let before: Vec<Vec<u8>> = generation.population.iter().map(|g| g.genotype.clone()).collect();
    generation.generate_generation(1, &mut rng);
    assert_eq!(generation.population.len(), 9);
    assert!(generation.population.iter().all(|g| before.contains(&g.genotype)));
}

#[test]
fn a_crowded_pool_is_reported() {
    let mut rng = StdRng::seed_from_u64(8);
    let mut args = settings();
    args.detect_crowding = Rate::always();
    args.evaluate = true;
    args.population = 4;
    args.intermediate_population = 4;
    args.genitors = vec![b"0101".to_vec(), b"0101".to_vec()];
    let mut generation = Generation::from(args, four_items(), &mut rng);
    let report = generation.generate_generation(1, &mut rng);
    assert!(report.crowded);
    assert!(generation.detected_crowding());
    assert_eq!(generation.population.len(), 4);

    let mut quiet = settings();
    quiet.evaluate = true;
    quiet.population = 4;
    quiet.intermediate_population = 4;
    quiet.genitors = vec![b"0101".to_vec(), b"0101".to_vec()];
    let mut unwatched = Generation::from(quiet, four_items(), &mut rng);
    assert!(!unwatched.generate_generation(1, &mut rng).crowded);
}

#[test]
fn breed_fills_odd_populations_with_a_lone_child() {
    let mut rng = StdRng::seed_from_u64(9);
    let mut args = settings();
    args.population = 3;
    args.intermediate_population = 6;
    let mut generation = Generation::from(args, four_items(), &mut rng);
    generation.select_genitors(&mut rng);
    let children = breed(&generation, &mut rng);
    assert_eq!(children.len(), 3);
}

#[test]
fn generate_genitors_tops_up_only() {
    let mut rng = StdRng::seed_from_u64(10);
    let mut args = settings();
    args.evaluate = true;
    args.population = 6;
    args.genitors = vec![b"0101".to_vec(), b"1000".to_vec()];
    let mut generation = Generation::from(args, four_items(), &mut rng);
    assert_eq!(generation.population.len(), 2);
    generation.generate_genitors(&mut rng);
    assert_eq!(generation.population.len(), 6);
    assert_eq!(generation.population[0].genotype, b"0101".to_vec());
    assert_eq!(generation.population[1].genotype, b"1000".to_vec());
    generation.generate_genitors(&mut rng);
    assert_eq!(generation.population.len(), 6);
    let fresh = Genotype::new(&generation, &mut rng);
    assert_eq!(fresh.len(), 4);
}

#[test]
fn genotype_reproduce_with_skip_one_changes_nothing() {
    let mut rng = StdRng::seed_from_u64(11);
    let mut args = settings();
    args.skip = Rate::always();
    args.mutation_rate = Rate::always();
    args.force_mutation = true;
    let generation = Generation::from(args, four_items(), &mut rng);
    let mut first = Genotype::from(b"0101".to_vec(), Fitness::Valid(900_000));
    let mut second = Genotype::from(b"1000".to_vec(), Fitness::Valid(500_000));
    first.reproduce(&mut second, &generation, &mut rng);
    assert_eq!(first.genotype, b"0101".to_vec());
    assert_eq!(first.fitness, Fitness::Valid(900_000));
    assert_eq!(second.genotype, b"1000".to_vec());
    assert_eq!(second.fitness, Fitness::Valid(500_000));
}

#[test]
fn genotype_reproduce_recombines_and_evaluates() {
    let mut rng = StdRng::seed_from_u64(12);
    let mut args = settings();
    args.skip = Rate::never();
    args.mutation_rate = Rate::never();
    args.sex_method = SexMethod::One;
    let generation = Generation::from(args, four_items(), &mut rng);
    for _ in 0..20 {
        let mut first = Genotype::from(b"0000".to_vec(), Fitness::Valid(0));
        let mut second = Genotype::from(b"1111".to_vec(), Fitness::Invalid);
        first.reproduce(&mut second, &generation, &mut rng);
        // the head is exchanged up to the crossover point
        assert!([b"1000".to_vec(), b"1100".to_vec(), b"1110".to_vec()].contains(&first.genotype));
        let mirrored: Vec<u8> = first.genotype.iter().map(|b| if *b == b'0' { b'1' } else { b'0' }).collect();
        assert_eq!(second.genotype, mirrored);
        assert_eq!(first.fitness, generation.problem.fitness(&first.genotype));
        assert_eq!(second.fitness, generation.problem.fitness(&second.genotype));
    }
}

#[test]
fn champions_keep_the_latest_improvements() {
    let mut record = Champions::new(2);
    assert!(record.best().is_none());
    let scored = |score: u64| Genotype::from(vec![score as u8], Fitness::Valid(score));
    assert!(record.observe(&Genotype::from(vec![0], Fitness::Invalid)));
    assert!(record.observe(&scored(5)));
    assert!(!record.observe(&scored(5)));
    assert!(!record.observe(&scored(3)));
    assert!(!record.observe(&Genotype::from(vec![0], Fitness::Invalid)));
    assert_eq!(record.best().unwrap().fitness, Fitness::Valid(5));
    assert_eq!(record.seen.len(), 2);
    assert!(record.observe(&scored(9)));
    assert_eq!(record.seen.len(), 2);
    assert_eq!(record.seen[0].fitness, Fitness::Valid(5));
    assert_eq!(record.seen[1].fitness, Fitness::Valid(9));
    assert_eq!(record.best().unwrap().genotype, vec![9]);
}

#[test]
fn knapsack_run_finds_the_known_optimum() {
    // population 50, 100 generations, mutation rate 0.01, uniform crossover,
    // equal selection
    let mut found = 0;
    for seed in 0..20 {
        let mut rng = StdRng::seed_from_u64(seed);
        let mut args = settings();
        args.sex_method = SexMethod::Uniform;
        args.selection_method = SelectionMethod::Equal;
        let mut generation = Generation::from(args, four_items(), &mut rng);
        let mut record = Champions::new(1);
        record.observe(&generation.population[0]);
        let mut last = record.best().unwrap().fitness;
        for i in 1..generation.max_generations {
            generation.generate_generation(i, &mut rng);
            record.observe(&generation.population[0]);
            let best = record.best().unwrap().fitness;
            assert!(best >= last);
            last = best;
        }
        if record.best().unwrap().genotype == b"0101".to_vec() {
            assert_eq!(last, Fitness::Valid(900_000));
            found += 1;
        }
    }
    assert_eq!(found, 20);
}

#[test]
fn a_genotype_is_reported_with_its_fitness() {
    assert_eq!(Genotype::from(b"0101".to_vec(), Fitness::Valid(900_000)).label(), "0101: 0.900000");
    assert_eq!(Genotype::from(b"1111".to_vec(), Fitness::Invalid).label(), "1111: Invalid!");
    let copy = Genotype::from(b"01".to_vec(), Fitness::Valid(1)).clone();
    assert_eq!(copy.genotype, b"01".to_vec());
    assert_eq!(copy.fitness, Fitness::Valid(1));
}

fn genes_of(pool: &[Genotype]) -> Vec<Vec<u8>> {
    pool.iter().map(|g| g.genotype.clone()).collect()
}

#[test]
fn remainder_selection_gives_exact_shares() {
    let mut rng = StdRng::seed_from_u64(13);
    let mut args = settings();
    args.selection_method = SelectionMethod::Remainder;
    args.evaluate = true;
    args.population = 3;
    args.intermediate_population = 6;
    let mut generation = Generation::from(args, four_items(), &mut rng);
    // scores in the proportion 4 : 2 : 0
    generation.population = vec![
        Genotype::from(b"1100".to_vec(), Fitness::Valid(400_000)),
        Genotype::from(b"1000".to_vec(), Fitness::Valid(200_000)),
        Genotype::from(b"0000".to_vec(), Fitness::Valid(0)),
    ];
    for _ in 0..20 {
        generation.select_genitors(&mut rng);
        assert_eq!(
            genes_of(&generation.intermediate),
            vec![
                b"1100".to_vec(),
                b"1100".to_vec(),
                b"1100".to_vec(),
                b"1100".to_vec(),
                b"1000".to_vec(),
                b"1000".to_vec()
            ]
        );
        assert_eq!(generation.intermediate[0].fitness, Fitness::Valid(400_000));
        assert_eq!(generation.intermediate[5].fitness, Fitness::Valid(200_000));
    }
}

#[test]
fn remainder_selection_leaves_invalid_genotypes_out() {
    let mut rng = StdRng::seed_from_u64(14);
    let mut args = settings();
    args.selection_method = SelectionMethod::Remainder;
    args.evaluate = true;
    args.population = 2;
    args.intermediate_population = 4;
    let mut generation = Generation::from(args, four_items(), &mut rng);
    generation.population = vec![
        Genotype::from(b"1000".to_vec(), Fitness::Valid(200_000)),
        Genotype::from(b"1111".to_vec(), Fitness::Invalid),
    ];
    for _ in 0..20 {
        generation.select_genitors(&mut rng);
        assert_eq!(genes_of(&generation.intermediate), vec![b"1000".to_vec(); 4]);
    }
}

#[test]
fn genotype_reproduce_takes_a_stale_fitness() {
    let mut rng = StdRng::seed_from_u64(15);
    let mut args = settings();
    args.skip = Rate::always();
    let carried = Generation::from(args, four_items(), &mut rng);
    let mut first = Genotype::from(b"0101".to_vec(), Fitness::Valid(1));
    let mut second = Genotype::from(b"1000".to_vec(), Fitness::Invalid);
    first.reproduce(&mut second, &carried, &mut rng);
    // carried over as they were, stale fitness included
    assert_eq!(first.fitness, Fitness::Valid(1));
    assert_eq!(second.fitness, Fitness::Invalid);

    let mut args = settings();
    args.skip = Rate::never();
    args.mutation_rate = Rate::never();
    let renewed = Generation::from(args, four_items(), &mut rng);
    first.reproduce(&mut second, &renewed, &mut rng);
    // recombined: the fitness is brought up to date
    assert_eq!(first.fitness, renewed.problem.fitness(&first.genotype));
    assert_eq!(second.fitness, renewed.problem.fitness(&second.genotype));
}
