use canticlec_churn::ball::Direction;
use canticlec_churn::square::{Cell, CellContent, Instruction, Program, SquareEffect, SquareProgram};

fn program(name: &str) -> Program {
    Program { instructions: vec![Instruction::Stop], name: name.to_string(), source_text: None }
}

#[test]
fn new_square_program_bounces_on_the_first_hit() {
    let p = SquareProgram::new();
    assert_eq!(p.steps.len(), 1);
    assert_eq!(p.steps[0].trigger_hits, 1);
    assert_eq!(p.steps[0].effect, SquareEffect::Bounce);
    assert_eq!(p.hit_count, 0);
    assert_eq!(p.active_program, Some(0));
    assert_eq!(p.programs.len(), 1);
    assert_eq!(p.programs[0].name, "Default");
    assert!(matches!(p.programs[0].instructions[..], [Instruction::Bounce]));
}

#[test]
fn steps_stay_sorted_by_trigger_count_and_keep_their_order() {
    let mut p = SquareProgram::new();
    p.clear_steps();
    p.add_step(3, SquareEffect::Stop);
    p.add_step(1, SquareEffect::Bounce);
    p.add_step(3, SquareEffect::DirectionChange(Direction::Left));
    p.add_step(2, SquareEffect::Sample(7));
    let hits: Vec<u32> = p.steps.iter().map(|s| s.trigger_hits).collect();
    assert_eq!(hits, vec![1, 2, 3, 3]);
    assert_eq!(p.steps[2].effect, SquareEffect::Stop);
    assert_eq!(p.steps[3].effect, SquareEffect::DirectionChange(Direction::Left));
}

#[test]
fn effects_are_those_of_the_matching_steps() {
    let mut p = SquareProgram::new();
    p.add_step(2, SquareEffect::SpeedBoost(1.5f32.to_bits()));
    p.add_step(2, SquareEffect::Program(0));
    assert_eq!(p.get_effects_for_hit_count(1), vec![SquareEffect::Bounce]);
    assert_eq!(
        p.get_effects_for_hit_count(2),
        vec![SquareEffect::SpeedBoost(1.5f32.to_bits()), SquareEffect::Program(0)]
    );
    assert!(p.get_effects_for_hit_count(5).is_empty());
}

#[test]
fn deleting_a_step_out_of_range_changes_nothing() {
    let mut p = SquareProgram::new();
    p.add_step(4, SquareEffect::Stop);
    p.delete_step(9);
    assert_eq!(p.steps.len(), 2);
    p.delete_step(0);
    assert_eq!(p.steps.len(), 1);
    assert_eq!(p.steps[0].trigger_hits, 4);
}

#[test]
fn reset_hits_sets_the_count_to_zero() {
    let mut p = SquareProgram::new();
    p.hit_count = 12;
    p.reset_hits();
    assert_eq!(p.hit_count, 0);
}

#[test]
fn programs_are_added_updated_and_looked_up() {
    let mut p = SquareProgram::new();
    p.add_program(program("a"));
    assert_eq!(p.programs.len(), 2);
    p.update_program(1, program("b"));
    assert_eq!(p.get_program(1).map(|q| q.name.clone()), Some("b".to_string()));
    p.update_program(5, program("c"));
    assert_eq!(p.programs.len(), 2);
    assert!(p.get_program(5).is_none());
    p.set_active_program(None);
    assert_eq!(p.active_program, None);
}

#[test]
fn the_untouched_default_program_is_replaced_first() {
    let mut p = SquareProgram::new();
    let i = p.replace_or_add_program(program("mine"));
    assert_eq!(i, 0);
    assert_eq!(p.programs.len(), 1);
    assert_eq!(p.programs[0].name, "mine");
    let j = p.replace_or_add_program(program("more"));
    assert_eq!(j, 1);
    assert_eq!(p.programs.len(), 2);
}

#[test]
fn cells_hold_squares_or_nothing() {
    let mut c = Cell::new_empty();
    assert!(c.is_empty());
    assert!(!c.is_square());
    assert_eq!(c.color, [100, 100, 100]);
    c.place_square(Some([1, 2, 3]));
    assert!(c.is_square());
    assert_eq!(c.content, CellContent::Square);
    assert_eq!(c.color, [1, 2, 3]);
    c.set_color([9, 9, 9]);
    assert_eq!(c.color, [9, 9, 9]);
    c.clear();
    assert!(c.is_empty());
    let s = Cell::new_square([0, 0, 255]);
    assert!(s.is_square());
    assert_eq!(s.get_program().steps.len(), 1);
}

#[test]
fn saving_one_program_at_an_index_replaces_it_and_makes_it_active() {
    let mut p = SquareProgram::new();
    p.add_program(program("second"));
    p.save_programs(&vec![program("edited")], Some(1));
    assert_eq!(p.programs.len(), 2);
    assert_eq!(p.programs[0].name, "Default");
    assert_eq!(p.programs[1].name, "edited");
    assert_eq!(p.active_program, Some(1));
}

#[test]
fn saving_programs_without_an_index_adds_them_and_activates_the_first() {
    let mut p = SquareProgram::new();
    p.save_programs(&vec![program("a"), program("b")], None);
    assert_eq!(p.programs.len(), 3);
    assert_eq!(p.programs[1].name, "a");
    assert_eq!(p.programs[2].name, "b");
    assert_eq!(p.active_program, Some(1));
}

#[test]
fn saving_several_programs_at_an_index_adds_the_rest_after() {
    let mut p = SquareProgram::new();
    p.save_programs(&vec![program("a"), program("b"), program("c")], Some(0));
    assert_eq!(p.programs.len(), 3);
    assert_eq!(p.programs[0].name, "a");
    assert_eq!(p.programs[1].name, "b");
    assert_eq!(p.programs[2].name, "c");
    assert_eq!(p.active_program, Some(0));
}

#[test]
fn saving_no_program_changes_nothing() {
    let mut p = SquareProgram::new();
    p.save_programs(&Vec::new(), Some(0));
    assert_eq!(p.programs.len(), 1);
    assert_eq!(p.programs[0].name, "Default");
    assert_eq!(p.active_program, Some(0));
}

#[test]
fn saving_at_an_index_past_the_end_only_moves_the_active_index() {
    let mut p = SquareProgram::new();
    p.save_programs(&vec![program("x")], Some(5));
    assert_eq!(p.programs.len(), 1);
    assert_eq!(p.programs[0].name, "Default");
    assert_eq!(p.active_program, Some(5));
}

#[test]
fn a_hit_is_counted_and_names_the_active_program() {
    let mut p = SquareProgram::new();
    assert_eq!(p.register_hit(), Some(0));
    assert_eq!(p.hit_count, 1);
    p.set_active_program(Some(3));
    assert_eq!(p.register_hit(), None);
    assert_eq!(p.hit_count, 2);
    p.set_active_program(None);
    assert_eq!(p.register_hit(), None);
    assert_eq!(p.hit_count, 3);
    assert_eq!(p.programs.len(), 1);
}
