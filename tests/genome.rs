use evosim::genome::{network_shape_ok, Genome};

#[test]
fn test_random_genome() {
    let genome = Genome::random(100);
    assert_eq!(genome.genes.len(), 100);
    assert_eq!(genome.generation, 0);
}

#[test]
fn matching_genes_counts_close_bytes() {
    let a = Genome { genes: vec![100, 100, 100, 0], generation: 0 };
    let b = Genome { genes: vec![100, 105, 110, 9], generation: 3 };
    assert_eq!(a.matching_genes(&b), Some(3));
    let c = Genome { genes: vec![1, 2], generation: 0 };
    assert_eq!(a.matching_genes(&c), None);
}

#[test]
fn weight_bytes_wrap_around_the_genome() {
    let g = Genome { genes: vec![10, 20, 30], generation: 0 };
    assert_eq!(g.weight_bytes(7), vec![10, 20, 30, 10, 20, 30, 10]);
    assert_eq!(g.weight_bytes(0), Vec::<u8>::new());
    let empty = Genome { genes: vec![], generation: 0 };
    assert!(empty.weight_bytes(5).is_empty());
}

#[test]
fn weight_bytes_for_controller_shapes() {
    // a 256-byte genome feeding an 8-6-12 network needs 48 + 72 weights
    let g = Genome::random(256);
    let w = g.weight_bytes(8 * 6 + 12 * 6);
    assert_eq!(w.len(), 120);
    assert_eq!(w[0], g.genes[0]);
    assert_eq!(w[119], g.genes[119]);
}

#[test]
fn shape_check_accepts_only_matching_lengths() {
    assert!(network_shape_ok(8, 6, 12, 48, 72));
    assert!(!network_shape_ok(8, 6, 12, 47, 72));
    assert!(!network_shape_ok(8, 6, 12, 48, 73));
    assert!(network_shape_ok(0, 0, 0, 0, 0));
    assert!(!network_shape_ok(usize::MAX, 2, 1, 0, 2));
}

#[test]
fn random_genome_bytes_vary() {
    let genome = Genome::random(400);
    assert!(genome.genes.iter().any(|&b| b != genome.genes[0]));
}
