use alife::action::N_ACTIONS;
use alife::config::N_SENSORS;
use alife::ns::{choose_action, squash_exec};
use alife::{Action, Conn, Dir, Gene, Genome, NsShape, Rng, SinkKind, SourceKind, NS};

fn shape() -> NsShape {
    NsShape::new(N_SENSORS, 5, N_ACTIONS)
}

/// Readings that are zero but for the constant one at place 17.
fn quiet() -> Vec<i32> {
    let mut sensors = vec![0; N_SENSORS];
    sensors[17] = 1000;
    sensors
}

fn direct(src: u16, dst: u16, weight: i32) -> Gene {
    Gene { src_kind: SourceKind::Sensor, src, dst_kind: SinkKind::Action, dst, weight }
}

fn inward(src: u16, dst: u16, weight: i32) -> Gene {
    Gene { src_kind: SourceKind::Sensor, src, dst_kind: SinkKind::Hidden, dst, weight }
}

fn outward(src: u16, dst: u16, weight: i32) -> Gene {
    Gene { src_kind: SourceKind::Hidden, src, dst_kind: SinkKind::Action, dst, weight }
}

fn controller(genes: Vec<Gene>) -> NS {
    NS::decode(&Genome::from_genes(genes), shape())
}

#[test]
fn shape_counts() {
    let s = NsShape::new(18, 5, 10);
    assert_eq!(s.sensor_count, 18);
    assert_eq!(s.hidden_count, 5);
    assert_eq!(s.action_count, 10);
    assert_eq!(s.source_count(SourceKind::Sensor), 18);
    assert_eq!(s.source_count(SourceKind::Hidden), 5);
    assert_eq!(s.sink_count(SinkKind::Hidden), 5);
    assert_eq!(s.sink_count(SinkKind::Action), 10);
}

#[test]
fn decode_reduces_ids_modulo_the_layer() {
    let conn = Conn::decode(direct(35, 12, -3), shape());
    assert_eq!(
        conn,
        Some(Conn { src_kind: SourceKind::Sensor, src: 17, dst_kind: SinkKind::Action, dst: 2, weight: -3 })
    );
    let conn = Conn::decode(inward(65535, 65535, 9), shape());
    assert_eq!(
        conn,
        Some(Conn { src_kind: SourceKind::Sensor, src: 65535 % 18, dst_kind: SinkKind::Hidden, dst: 0, weight: 9 })
    );
    let conn = Conn::decode(outward(7, 9, 1), shape());
    assert_eq!(
        conn,
        Some(Conn { src_kind: SourceKind::Hidden, src: 2, dst_kind: SinkKind::Action, dst: 9, weight: 1 })
    );
}

#[test]
fn decode_drops_what_cannot_be_a_forward_connection() {
    let looped =
        Gene { src_kind: SourceKind::Hidden, src: 0, dst_kind: SinkKind::Hidden, dst: 1, weight: 5 };
    assert_eq!(Conn::decode(looped, shape()), None);
    let no_hidden = NsShape::new(18, 0, 10);
    assert_eq!(Conn::decode(inward(0, 0, 5), no_hidden), None);
    assert_eq!(Conn::decode(outward(0, 0, 5), no_hidden), None);
    assert!(Conn::decode(direct(0, 0, 5), no_hidden).is_some());
    assert_eq!(Conn::decode(direct(0, 0, 5), NsShape::new(0, 5, 10)), None);
    assert_eq!(Conn::decode(direct(0, 0, 5), NsShape::new(18, 5, 0)), None);
}

#[test]
fn every_genome_decodes() {
    let mut rng = Rng::new(2);
    for shape in [NsShape::new(18, 5, 10), NsShape::new(0, 0, 0), NsShape::new(1, 0, 1), NsShape::new(3, 7, 2)] {
        let genome = Genome::new(200, &mut rng);
        let ns = NS::decode(&genome, shape);
        assert_eq!(ns.shape(), shape);
        assert!(ns.conn_count() <= 200);
        let sensors = vec![1000; shape.sensor_count];
        let outputs = ns.eval(&sensors);
        assert_eq!(outputs.len(), shape.action_count);
        for o in outputs {
            assert!(-1000 <= o && o <= 1000);
        }
    }
}

#[test]
fn decode_counts_the_usable_genes() {
    let looped =
        Gene { src_kind: SourceKind::Hidden, src: 0, dst_kind: SinkKind::Hidden, dst: 1, weight: 5 };
    let ns = controller(vec![direct(0, 0, 1), looped, inward(0, 0, 1), outward(0, 0, 1)]);
    assert_eq!(ns.conn_count(), 3);
}

#[test]
fn squash_is_odd_and_saturates() {
    assert_eq!(squash_exec(0), 0);
    assert_eq!(squash_exec(999), 0);
    assert_eq!(squash_exec(1000), 1);
    assert_eq!(squash_exec(-999), 0);
    assert_eq!(squash_exec(-1000), -1);
    assert_eq!(squash_exec(250_999), 250);
    assert_eq!(squash_exec(-250_999), -250);
    assert_eq!(squash_exec(1_000_000), 1000);
    assert_eq!(squash_exec(1_000_999), 1000);
    assert_eq!(squash_exec(1_001_000), 1000);
    assert_eq!(squash_exec(-1_000_000), -1000);
    assert_eq!(squash_exec(-1_001_000), -1000);
    assert_eq!(squash_exec(-1_002_000), -1000);
    assert_eq!(squash_exec(i128::MAX), 1000);
    assert_eq!(squash_exec(i128::MIN), -1000);
}

#[test]
fn empty_controller_is_silent() {
    let ns = controller(Vec::new());
    assert_eq!(ns.eval(&quiet()), vec![0; 10]);
    assert_eq!(ns.decide(&quiet()), Action::Stay);
}

#[test]
fn direct_connection_drives_an_action() {
    let ns = controller(vec![direct(17, 0, 1000)]);
    let mut expected = vec![0; 10];
    expected[0] = 1000;
    assert_eq!(ns.eval(&quiet()), expected);
    assert_eq!(ns.decide(&quiet()), Action::Move(Dir::North));
}

#[test]
fn weights_on_the_same_edge_add_up() {
    let one = controller(vec![direct(17, 0, 60)]);
    assert_eq!(one.eval(&quiet())[0], 60);
    assert_eq!(one.decide(&quiet()), Action::Stay);
    let two = controller(vec![direct(17, 0, 60), direct(17, 0, 60)]);
    assert_eq!(two.eval(&quiet())[0], 120);
    assert_eq!(two.decide(&quiet()), Action::Move(Dir::North));
    let cancelled = controller(vec![direct(17, 0, 900), direct(17, 0, -900)]);
    assert_eq!(cancelled.eval(&quiet())[0], 0);
}

#[test]
fn gene_order_does_not_matter() {
    let genes = vec![direct(17, 3, 400), inward(17, 2, 700), outward(2, 3, -500), direct(17, 8, 150)];
    let mut reversed = genes.clone();
    reversed.reverse();
    assert_eq!(controller(genes).eval(&quiet()), controller(reversed).eval(&quiet()));
}

#[test]
fn hidden_layer_passes_activation_on() {
    // Hidden node 0 gets 1000 * 1000 / 1000 = 1000; action 8 gets 500 * 1000 / 1000 = 500.
    let ns = controller(vec![inward(17, 0, 1000), outward(0, 8, 500)]);
    assert_eq!(ns.eval_hidden(&quiet()), vec![1000, 0, 0, 0, 0]);
    let mut expected = vec![0; 10];
    expected[8] = 500;
    assert_eq!(ns.eval(&quiet()), expected);
    assert_eq!(ns.decide(&quiet()), Action::Eat);
}

#[test]
fn hidden_activation_is_squashed_before_it_is_passed_on() {
    // Three inputs of 1000 would give 3000; the hidden node saturates at 1000.
    let ns = controller(vec![
        inward(17, 1, 1000),
        inward(17, 1, 1000),
        inward(17, 1, 1000),
        outward(1, 9, 300),
    ]);
    assert_eq!(ns.eval_hidden(&quiet())[1], 1000);
    assert_eq!(ns.eval(&quiet())[9], 300);
    assert_eq!(ns.decide(&quiet()), Action::Replicate);
}

#[test]
fn negative_activation_flows_through() {
    let ns = controller(vec![inward(17, 0, -400), outward(0, 2, -500)]);
    assert_eq!(ns.eval_hidden(&quiet())[0], -400);
    assert_eq!(ns.eval(&quiet())[2], 200);
    assert_eq!(ns.decide(&quiet()), Action::Move(Dir::East));
}

#[test]
fn sensor_values_scale_the_input() {
    let ns = controller(vec![direct(16, 4, 1000)]);
    let mut sensors = quiet();
    sensors[16] = 345;
    assert_eq!(ns.eval(&sensors)[4], 345);
    assert_eq!(ns.decide(&sensors), Action::Move(Dir::South));
    sensors[16] = 100;
    assert_eq!(ns.decide(&sensors), Action::Stay);
    sensors[16] = 101;
    assert_eq!(ns.decide(&sensors), Action::Move(Dir::South));
}

#[test]
fn extreme_weights_and_readings_do_not_overflow() {
    let ns = controller(vec![
        direct(0, 0, i32::MIN),
        direct(0, 0, i32::MIN),
        direct(1, 1, i32::MAX),
        inward(0, 0, i32::MIN),
        outward(0, 2, i32::MIN),
    ]);
    let mut sensors = vec![0; N_SENSORS];
    sensors[0] = i32::MIN;
    sensors[1] = i32::MIN;
    let outputs = ns.eval(&sensors);
    assert_eq!(outputs[0], 1000);
    assert_eq!(outputs[1], -1000);
    assert_eq!(outputs[2], -1000);
}

#[test]
fn largest_activation_wins_and_ties_go_to_the_first() {
    assert_eq!(choose_action(&vec![0, 500, 900, 500]), Action::Move(Dir::East));
    assert_eq!(choose_action(&vec![700, 700, 700]), Action::Move(Dir::North));
    assert_eq!(choose_action(&vec![0, 0, 0, 300, 300]), Action::Move(Dir::SouthEast));
    assert_eq!(choose_action(&vec![-5, -5, 0, 0, 0, 0, 0, 0, 800, 800]), Action::Eat);
    assert_eq!(choose_action(&vec![0, 0, 0, 0, 0, 0, 0, 0, 0, 101]), Action::Replicate);
}

#[test]
fn activation_must_exceed_the_threshold() {
    assert_eq!(choose_action(&vec![100, 100]), Action::Stay);
    assert_eq!(choose_action(&vec![100, 101]), Action::Move(Dir::NorthEast));
    assert_eq!(choose_action(&vec![-1000, -1000]), Action::Stay);
    assert_eq!(choose_action(&Vec::new()), Action::Stay);
}

#[test]
fn action_nodes_beyond_the_tenth_do_nothing() {
    let mut acts = vec![0; 12];
    acts[10] = 1000;
    assert_eq!(choose_action(&acts), Action::Stay);
    assert_eq!(Action::from_index(10), Action::Stay);
    assert_eq!(Action::from_index(usize::MAX), Action::Stay);
}

#[test]
fn actions_by_index() {
    assert_eq!(Action::from_index(0), Action::Move(Dir::North));
    assert_eq!(Action::from_index(1), Action::Move(Dir::NorthEast));
    assert_eq!(Action::from_index(2), Action::Move(Dir::East));
    assert_eq!(Action::from_index(3), Action::Move(Dir::SouthEast));
    assert_eq!(Action::from_index(4), Action::Move(Dir::South));
    assert_eq!(Action::from_index(5), Action::Move(Dir::SouthWest));
    assert_eq!(Action::from_index(6), Action::Move(Dir::West));
    assert_eq!(Action::from_index(7), Action::Move(Dir::NorthWest));
    assert_eq!(Action::from_index(8), Action::Eat);
    assert_eq!(Action::from_index(9), Action::Replicate);
}

#[test]
fn same_genome_same_decision() {
    let mut rng = Rng::new(17);
    for _ in 0..20 {
        let genome = Genome::new(60, &mut rng);
        let mut sensors = Vec::new();
        for _ in 0..N_SENSORS {
            sensors.push(rng.below(1001) as i32);
        }
        let first = NS::decode(&genome, shape());
        let second = NS::decode(&genome, shape());
        assert_eq!(first.eval(&sensors), second.eval(&sensors));
        assert_eq!(first.decide(&sensors), second.decide(&sensors));
        assert_eq!(first.decide(&sensors), first.decide(&sensors));
    }
}
