use folding_physics::error::PhysicsError;
use folding_physics::level::{
    format_level, ForceFieldKind, IntegratorKind, PhysicsLevel,
};
use folding_physics::run::{
    fit_buffer, plan_simulation, sample_count, ConstraintSweeps, StepAction, StepSchedule,
    MAX_CONSTRAINT_SWEEPS,
};
use folding_physics::topology::{
    amino_acid_three_letter, angle_triples, bonded_pairs, chain_sequence_for_targets,
    compute_sequence_length, dihedral_sites, generate_sequence,
    residue_names, separated_pair_list, AminoAcid,
};

#[test]
fn level_parsing_ignores_case_and_defaults_to_toy() {
    assert_eq!(PhysicsLevel::from_str("toy"), PhysicsLevel::Toy);
    assert_eq!(PhysicsLevel::from_str("COARSE"), PhysicsLevel::Coarse);
    assert_eq!(PhysicsLevel::from_str("Gb"), PhysicsLevel::GB);
    assert_eq!(PhysicsLevel::from_str("full"), PhysicsLevel::Full);
    assert_eq!(PhysicsLevel::from_str("quantum"), PhysicsLevel::Toy);
    assert_eq!(PhysicsLevel::from_str(""), PhysicsLevel::Toy);
}

#[test]
fn level_tags_round_trip() {
    for level in [PhysicsLevel::Toy, PhysicsLevel::Coarse, PhysicsLevel::GB, PhysicsLevel::Full] {
        assert_eq!(PhysicsLevel::from_str(&format_level(level)), level);
    }
    assert_eq!(format_level(PhysicsLevel::GB), "gb");
}

#[test]
fn level_table_matches_the_design() {
    let toy = PhysicsLevel::Toy.parameters();
    assert_eq!(toy.force_field, ForceFieldKind::CoarseGrained);
    assert_eq!(toy.integrator, IntegratorKind::Verlet);
    assert_eq!((toy.timestep_fs, toy.num_steps, toy.temperature_kelvin), (10, 100, 300));
    let coarse = PhysicsLevel::Coarse.parameters();
    assert_eq!(coarse.integrator, IntegratorKind::Langevin { friction_per_ps: 1 });
    assert_eq!((coarse.timestep_fs, coarse.num_steps), (5, 200));
    let gb = PhysicsLevel::GB.parameters();
    assert_eq!(gb.force_field, ForceFieldKind::AllAtomSolvated);
    assert_eq!(gb.integrator, IntegratorKind::Langevin { friction_per_ps: 5 });
    assert_eq!((gb.timestep_fs, gb.num_steps), (2, 500));
    let full = PhysicsLevel::Full.parameters();
    assert_eq!(full.force_field, ForceFieldKind::AllAtomSolvated);
    assert_eq!(full.integrator, IntegratorKind::Langevin { friction_per_ps: 10 });
    assert_eq!((full.timestep_fs, full.num_steps), (1, 1000));
}

#[test]
fn mismatched_request_is_rejected() {
    let result = plan_simulation(PhysicsLevel::Toy, 3, 2, &[]);
    match result {
        Err(PhysicsError::InvalidSystem(msg)) => {
            assert_eq!(msg, "Mismatch between positions and residue types")
        }
        _ => panic!("expected a validation failure"),
    }
}

#[test]
fn toy_request_plan() {
    let plan = plan_simulation(PhysicsLevel::Toy, 4, 4, &[1, 2]).unwrap();
    assert_eq!(plan.num_residues, 4);
    assert_eq!(plan.parameters.num_steps, 100);
    assert_eq!(plan.applied_rotations, vec![true, true]);
    let plan = plan_simulation(PhysicsLevel::Coarse, 2, 2, &[0, 2, 5]).unwrap();
    assert_eq!(plan.applied_rotations, vec![true, false, false]);
}

#[test]
fn schedule_samples_every_tenth_step() {
    let mut schedule = StepSchedule::new(21);
    let mut samples = Vec::new();
    let mut steps = 0;
    loop {
        match schedule.next() {
            StepAction::Integrate { step, sample } => {
                assert_eq!(step, steps);
                steps += 1;
                if sample {
                    samples.push(step);
                }
            }
            StepAction::Finished => break,
        }
    }
    assert_eq!(steps, 21);
    assert_eq!(samples, vec![0, 10, 20]);
    assert_eq!(sample_count(21), 3);
    assert_eq!(sample_count(100), 10);
    assert_eq!(sample_count(0), 0);
    assert_eq!(schedule.next(), StepAction::Finished);
}

#[test]
fn buffers_grow_and_shrink() {
    let mut v = vec![1.5f64, 2.5];
    fit_buffer(&mut v, 4, 12.0);
    assert_eq!(v, vec![1.5, 2.5, 12.0, 12.0]);
    fit_buffer(&mut v, 1, 0.0);
    assert_eq!(v, vec![1.5]);
    fit_buffer(&mut v, 1, 0.0);
    assert_eq!(v, vec![1.5]);
}

#[test]
fn residue_names_follow_one_letter_codes() {
    let names = residue_names("ACDE");
    assert_eq!(names.len(), 4);
    assert_eq!(names[0], "ALA");
    assert_eq!(names[2], "ASP");
    assert_eq!(amino_acid_three_letter('w'), "TRP");
    assert_eq!(amino_acid_three_letter('X'), "UNK");
    assert_eq!(amino_acid_three_letter('b'), "UNK");
    assert_eq!(AminoAcid::Serine.code(), "SER");
    assert_eq!(AminoAcid::Valine.to_code_string(), "VAL");
}

#[test]
fn generated_sequence_cycles_canonical_codes() {
    assert_eq!(generate_sequence(3), "ACD");
    assert_eq!(generate_sequence(0), "");
    let long = generate_sequence(22);
    assert_eq!(long, "ACDEFGHIKLMNPQRSTVWYAC");
}

#[test]
fn interaction_lists() {
    assert_eq!(bonded_pairs(4), vec![(0, 1), (1, 2), (2, 3)]);
    assert_eq!(bonded_pairs(0), vec![]);
    assert_eq!(angle_triples(4), vec![(0, 1, 2), (1, 2, 3)]);
    assert_eq!(angle_triples(2), vec![]);
    assert_eq!(dihedral_sites(6), vec![1, 2, 3, 4]);
    assert_eq!(dihedral_sites(4), vec![1, 2]);
    assert_eq!(dihedral_sites(3), vec![1]);
    assert_eq!(dihedral_sites(2), vec![]);
    assert_eq!(separated_pair_list(4, 2), vec![(0, 2), (0, 3), (1, 3)]);
    assert_eq!(separated_pair_list(3, 1), vec![(0, 1), (0, 2), (1, 2)]);
    assert_eq!(separated_pair_list(1, 2), vec![]);
}

#[test]
fn error_message_prefixes_kind() {
    let e = PhysicsError::InvalidSystem("bad".to_string());
    assert_eq!(e.message(), "Invalid system configuration: bad");
    let e = PhysicsError::IntegrationError("x".to_string());
    assert_eq!(e.message(), "Integration failed: x");
    let e = PhysicsError::ForceFieldError("y".to_string());
    assert_eq!(e.message(), "Force field error: y");
}

#[test]
fn constraint_sweeps_stop_on_convergence_or_budget() {
    let mut sweeps = ConstraintSweeps::new();
    let mut count = 0;
    while sweeps.should_sweep() {
        count += 1;
        sweeps.finish_sweep(count == 3);
    }
    assert_eq!(count, 3);
    let mut sweeps = ConstraintSweeps::new();
    let mut count = 0;
    while sweeps.should_sweep() {
        count += 1;
        sweeps.finish_sweep(false);
    }
    assert_eq!(count, MAX_CONSTRAINT_SWEEPS);
    assert_eq!(count, 100);
}

#[test]
fn sequence_length_covers_rotation_targets() {
    assert_eq!(compute_sequence_length(&[]), 0);
    assert_eq!(compute_sequence_length(&[2, 7, 3]), 8);
    assert_eq!(chain_sequence_for_targets(&[]), None);
    assert_eq!(chain_sequence_for_targets(&[4]), Some("ACDEF".to_string()));
}
