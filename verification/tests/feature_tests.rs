use azul::encoding::bag::BagEncoding;
use azul::encoding::factories::{CenterFactoryEncoding, NonCenterFactoryEncoding};
use azul::encoding::features::{is_encodable, Accumulator, InputChange};
use rand::SeedableRng;
use azul::encoding::pattern_lines::UpperPatternLinesEncoding;
use azul::encoding::score::ScoreEncoding;
use azul::encoding::wall::WallEncoding;
use azul::factories::Factories;
use azul::game_state::GameState;
use azul::TileColor;

#[derive(Default)]
struct MockLayer {
    input: Vec<usize>,
}

impl MockLayer {
    fn apply(&mut self, changes: &[InputChange]) {
        for change in changes {
            match *change {
                InputChange::On(index) => {
                    assert!(!self.input.contains(&index), "Index {} already set", index);
                    self.input.push(index);
                },
                InputChange::Off(index) => {
                    let before = self.input.len();
                    self.input.retain(|&x| x != index);
                    assert_eq!(before - 1, self.input.len());
                },
                InputChange::AllOff => self.input.clear(),
            }
        }
    }

    fn input(&self) -> &[usize] {
        &self.input
    }
}

#[test]
fn factories_test() {
    let mut layer = MockLayer::default();
    let mut encoding = NonCenterFactoryEncoding::initialize();

    let factories = Factories { factories: [[1, 1, 1, 1, 0]; 6] };
    layer.apply(&encoding.set_factories(&factories));
    let input_before = layer.input().to_vec();
    layer.apply(&encoding.set_factories(&factories));
    let input_after = layer.input().to_vec();
    println!("{:?}", input_before);
    println!("{:?}", input_after);
    assert_eq!(input_before, input_after);

    for i in 0..6 {
        layer.apply(&encoding.remove_factory(&factories.factories[i]));
    }

    let input = layer.input();
    println!("{:?}", input);
    println!("Now everything is empty. Set again");
    layer.apply(&encoding.set_factories(&factories));
}

#[test]
fn display_inputs_count_equal_contents() {
    let mut encoding = NonCenterFactoryEncoding::initialize();
    let factories = Factories { factories: [[1, 1, 1, 1, 0], [1, 1, 1, 1, 0], [0, 1, 0, 3, 0], [0; 5], [0; 5], [0; 5]] };
    let changes = encoding.set_factories(&factories);
    assert_eq!(
        changes,
        vec![
            InputChange::On(26 + 50),
            InputChange::On(71 + 26 + 50),
            InputChange::On(50),
            InputChange::On(70 + 50),
            InputChange::On(71 + 70 + 50),
            InputChange::On(142 + 70 + 50),
        ]
    );
    assert_eq!(encoding.factory_counts[26], 2);
    assert_eq!(encoding.factory_counts[70], 3);
}

#[test]
fn center_and_bag_inputs_follow_the_counts() {
    let (mut center, changes) = CenterFactoryEncoding::initialize();
    assert_eq!(changes, (0..5).map(InputChange::On).collect::<Vec<_>>());
    let changes = center.set(&[0, 2, 0, 0, 1]);
    assert_eq!(changes, vec![InputChange::On(11), InputChange::Off(1), InputChange::On(9), InputChange::Off(4)]);
    let (mut bag, changes) = BagEncoding::initialize();
    assert_eq!(changes.len(), 5);
    let changes = bag.set_for_color(2, 20);
    assert_eq!(changes, vec![InputChange::On(20 * 5 + 2 + 8027), InputChange::Off(2 + 8027)]);
    assert!(bag.set_for_color(2, 20).is_empty());
    let changes = bag.set_bag(&[0, 0, 20, 0, 3]);
    assert_eq!(changes, vec![InputChange::On(3 * 5 + 4 + 8027), InputChange::Off(4 + 8027)]);
}

#[test]
fn player_inputs_switch_only_when_they_change() {
    let (mut wall, changes) = WallEncoding::initialize();
    assert_eq!(changes.len(), 6);
    assert!(wall.set(0, 1).is_empty());
    let changes = wall.set(1, 0);
    assert_eq!(changes, vec![InputChange::Off(3867), InputChange::On(32 * 2 + 3867)]);
    let (mut score, _) = ScoreEncoding::initialize();
    let changes = score.set(10, 2, 1);
    // Score 10 minus the penalty 2 of two floor tiles: feature 8 + 8.
    assert_eq!(
        changes,
        vec![InputChange::Off(8 * 2 + 1 + 3609), InputChange::On(16 * 2 + 1 + 3609), InputChange::Off(1 + 3609), InputChange::On(2 * 2 + 1 + 3609)]
    );
    let (mut upper, changes) = UpperPatternLinesEncoding::initialize();
    assert_eq!(changes, vec![InputChange::On(405), InputChange::On(406)]);
    let colors = [Some(TileColor::Yellow), None, None, None, None];
    let changes = upper.set([1, 0, 0, 0, 0], colors, 0);
    assert_eq!(changes, vec![InputChange::Off(405), InputChange::On(2 * 2 + 405)]);
}

#[test]
fn accumulated_inputs_are_distinct_and_reset() {
    let mut accumulator = Accumulator {
        center_factory_encoding: CenterFactoryEncoding::initialize().0,
        factory_encoding: NonCenterFactoryEncoding::initialize(),
        upper_pattern_lines_encoding: UpperPatternLinesEncoding::initialize().0,
        lower_pattern_lines_encoding: azul::encoding::pattern_lines::LowerPatternLinesEncoding::initialize().0,
        score_encoding: ScoreEncoding::initialize().0,
        wall_encoding: WallEncoding::initialize().0,
    };
    let mut layer = MockLayer::default();
    let state = GameState::empty();
    let changes = accumulator.set_game_state(&state);
    assert_eq!(changes[0], InputChange::AllOff);
    layer.apply(&changes);
    // Five center counts, six empty displays, two pattern-line blocks per
    // player, score and floor line per player, three wall blocks per player.
    assert_eq!(layer.input().len(), 5 + 6 + 2 * 2 + 2 * 2 + 3 * 2);
    let first = layer.input().to_vec();
    layer.apply(&accumulator.set_game_state(&state));
    assert_eq!(layer.input(), &first[..]);
}

#[test]
fn a_fresh_accumulator_reports_its_initial_inputs() {
    let (mut accumulator, changes) = Accumulator::new();
    assert_eq!(changes.len(), 1 + 5 + 2 + 2 + 4 + 6);
    assert_eq!(changes[0], InputChange::AllOff);
    assert_eq!(changes[1], InputChange::On(0));
    assert_eq!(changes[6], InputChange::On(405));
    let mut layer = MockLayer::default();
    layer.apply(&changes);
    let state = GameState::empty();
    layer.apply(&accumulator.set_game_state(&state));
    assert_eq!(layer.input().len(), 5 + 6 + 2 * 2 + 2 * 2 + 3 * 2);
}

#[test]
fn only_well_formed_positions_are_encodable() {
    let mut rng = rand::rngs::SmallRng::seed_from_u64(4);
    assert!(is_encodable(&GameState::empty()));
    let state = GameState::new(&mut rng);
    assert!(is_encodable(&state));
    let mut overfull = state;
    overfull.pattern_lines_occupancy[0][0] = 2;
    overfull.pattern_lines_colors[0][0] = Some(azul::TileColor::Red);
    assert!(!is_encodable(&overfull));
    let mut colorless = state;
    colorless.pattern_lines_occupancy[1][3] = 1;
    assert!(!is_encodable(&colorless));
}

#[test]
fn center_counts_of_ten_and_more_stay_in_the_center_block() {
    let mut counts = [0usize; 5];
    assert_eq!(azul::encoding::factories::set_center_factory_index(12, 0, &mut counts), Some((45, 0)));
    assert_eq!(counts, [9, 0, 0, 0, 0]);
    assert_eq!(azul::encoding::factories::set_center_factory_index(10, 0, &mut counts), None);
    assert_eq!(azul::encoding::factories::set_center_factory_index(3, 4, &mut counts), Some((19, 4)));
    let mut center = CenterFactoryEncoding::initialize().0;
    let changes = center.set(&[15, 0, 0, 0, 11]);
    assert_eq!(changes, vec![InputChange::On(45), InputChange::Off(0), InputChange::On(49), InputChange::Off(4)]);
}
