use bot_orchestrator::algorithm::{Algorithm, Job};
use bot_orchestrator::coordinator::{Begun, Source, Turn, Wakeup};
use bot_orchestrator::interface::Interface;
use bot_orchestrator::message::BotMsg;
use bot_orchestrator::pool::{Acquired, Worked};

/// A unit of work: the generation of the field it was made for, and a number.
#[derive(Clone, Copy, Debug, PartialEq, Eq)]
struct Probe {
    generation: u32,
    number: u32,
}

/// What a probe yields: its generation and ten times its number.
#[derive(Clone, Copy, Debug, PartialEq, Eq)]
struct Reading {
    generation: u32,
    value: u32,
}

impl Job<Reading> for Probe {
    fn run(self) -> Reading {
        Reading { generation: self.generation, value: self.number * 10 }
    }
}

/// A finished decision.
#[derive(Debug, PartialEq, Eq)]
struct Decision {
    generation: u32,
    filled_cells: usize,
    score: u32,
}

type Handle = Interface<char, (i32, i32), Probe, Reading, Decision>;

const EMPTY: [[bool; 10]; 40] = [[false; 10]; 40];

/// A stand-in for the search: it needs the outcomes of two tasks before it
/// can answer a request, and it ignores outcomes of an earlier generation.
struct Search {
    field: [[bool; 10]; 40],
    generation: u32,
    requested: bool,
    generated: bool,
    gathered: Vec<u32>,
    stale: u32,
    advances: u32,
    pieces: Vec<char>,
    lines: Vec<Vec<(i32, i32)>>,
    lost: bool,
}

impl Search {
    fn new(field: [[bool; 10]; 40]) -> Self {
        Search {
            field,
            generation: 0,
            requested: false,
            generated: false,
            gathered: Vec::new(),
            stale: 0,
            advances: 0,
            pieces: Vec::new(),
            lines: Vec::new(),
            lost: false,
        }
    }
}

impl Algorithm<char, (i32, i32), Probe, Reading, Decision> for Search {
    fn is_terminal(&self) -> bool {
        self.lost
    }

    fn advance(&mut self) -> (Vec<Probe>, Vec<Decision>) {
        self.advances += 1;
        let mut tasks = Vec::new();
        let mut outputs = Vec::new();
        if !self.generated {
            tasks.push(Probe { generation: self.generation, number: 1 });
            tasks.push(Probe { generation: self.generation, number: 2 });
            self.generated = true;
        }
        if self.requested && self.gathered.len() == 2 {
            outputs.push(Decision {
                generation: self.generation,
                filled_cells: self.field.iter().flatten().filter(|cell| **cell).count(),
                score: self.gathered[0] + self.gathered[1],
            });
            self.requested = false;
            self.gathered.clear();
            self.generated = false;
        }
        (tasks, outputs)
    }

    fn integrate(&mut self, outcome: Reading) {
        if outcome.generation == self.generation && self.gathered.len() < 2 {
            self.gathered.push(outcome.value);
        } else {
            self.stale += 1;
        }
    }

    fn apply(&mut self, command: BotMsg<char, (i32, i32)>) {
        match command {
            BotMsg::NextMove(_) => self.requested = true,
            BotMsg::NewPiece(piece) => self.pieces.push(piece),
            BotMsg::Reset { field, .. } => {
                self.field = field;
                self.generation += 1;
                self.gathered.clear();
                self.generated = false;
            }
            BotMsg::ForceAnalysisLine(line) => self.lines.push(line),
        }
    }
}

#[test]
fn two_round_trips_after_a_request_yield_exactly_one_decision() {
    let mut handle: Handle = Interface::launch(2);
    let mut search = Search::new(EMPTY);
    handle.request_next_move(0);

    let bot = handle.coordinator();
    assert_eq!(bot.begin_iteration(&mut search), Begun::Published { tasks: 2, outputs: 0 });
    assert_eq!(bot.end_iteration(&mut search, Source::Commands), Turn::Applied);
    assert_eq!(bot.begin_iteration(&mut search), Begun::Published { tasks: 0, outputs: 0 });
    assert_eq!(bot.end_iteration(&mut search, Source::Commands), Turn::Pending);
    assert_eq!(handle.poll_next_move(), None);

    assert_eq!(handle.coordinator().work(0), Worked::Done);
    assert_eq!(handle.coordinator().work(1), Worked::Done);
    assert_eq!(handle.poll_next_move(), None);

    let bot = handle.coordinator();
    assert_eq!(bot.end_iteration(&mut search, Source::Commands), Turn::Integrated);
    assert_eq!(bot.begin_iteration(&mut search), Begun::Published { tasks: 0, outputs: 0 });
    assert_eq!(bot.end_iteration(&mut search, Source::Commands), Turn::Integrated);
    assert_eq!(bot.begin_iteration(&mut search), Begun::Published { tasks: 0, outputs: 1 });

    assert_eq!(
        handle.poll_next_move(),
        Some(Decision { generation: 0, filled_cells: 0, score: 30 })
    );
    assert_eq!(handle.poll_next_move(), None);
    let bot = handle.coordinator();
    assert_eq!(bot.end_iteration(&mut search, Source::Commands), Turn::Pending);
    assert_eq!(bot.work(0), Worked::Empty);
    assert_eq!(handle.poll_next_move(), None);
    assert!(!handle.is_dead());
}

#[test]
fn decision_after_a_reset_reflects_the_reset_field() {
    let mut occupied = EMPTY;
    occupied[0][0] = true;
    occupied[0][1] = true;
    occupied[1][0] = true;
    let mut handle: Handle = Interface::launch(2);
    let mut search = Search::new(occupied);

    // Tasks for the old field are dispatched and acquired, but not finished.
    let bot = handle.coordinator();
    assert_eq!(bot.begin_iteration(&mut search), Begun::Published { tasks: 2, outputs: 0 });
    let old_first = Probe { generation: 0, number: 1 };
    let old_second = Probe { generation: 0, number: 2 };
    assert_eq!(bot.acquire(0), Acquired::Task(old_first));
    assert_eq!(bot.acquire(1), Acquired::Task(old_second));

    handle.reset(EMPTY, false, 0);
    handle.request_next_move(0);

    let bot = handle.coordinator();
    assert_eq!(bot.end_iteration(&mut search, Source::Commands), Turn::Applied);
    assert_eq!(bot.begin_iteration(&mut search), Begun::Published { tasks: 2, outputs: 0 });
    assert_eq!(bot.end_iteration(&mut search, Source::Commands), Turn::Applied);
    assert_eq!(bot.begin_iteration(&mut search), Begun::Published { tasks: 0, outputs: 0 });
    assert_eq!(handle.poll_next_move(), None);

    // The outcomes of the old tasks arrive now and are handed over as they
    // come; the search tells them apart.
    let bot = handle.coordinator();
    assert!(bot.complete(1, old_second.run()));
    assert!(bot.complete(0, old_first.run()));
    assert_eq!(bot.end_iteration(&mut search, Source::Results), Turn::Integrated);
    assert_eq!(bot.begin_iteration(&mut search), Begun::Published { tasks: 0, outputs: 0 });
    assert_eq!(bot.end_iteration(&mut search, Source::Results), Turn::Integrated);
    assert_eq!(bot.begin_iteration(&mut search), Begun::Published { tasks: 0, outputs: 0 });
    assert_eq!(search.stale, 2);
    assert_eq!(handle.poll_next_move(), None);

    // The tasks made for the new field take their turn.
    let bot = handle.coordinator();
    assert_eq!(bot.work(1), Worked::Done);
    assert_eq!(bot.work(0), Worked::Done);
    assert_eq!(bot.end_iteration(&mut search, Source::Results), Turn::Integrated);
    assert_eq!(bot.begin_iteration(&mut search), Begun::Published { tasks: 0, outputs: 0 });
    assert_eq!(bot.end_iteration(&mut search, Source::Results), Turn::Integrated);
    assert_eq!(bot.begin_iteration(&mut search), Begun::Published { tasks: 0, outputs: 1 });
    assert_eq!(search.stale, 2);

    assert_eq!(
        handle.poll_next_move(),
        Some(Decision { generation: 1, filled_cells: 0, score: 30 })
    );
    assert_eq!(handle.poll_next_move(), None);
}

#[test]
fn without_the_reset_the_decision_reflects_the_old_field() {
    let mut occupied = EMPTY;
    occupied[0][0] = true;
    occupied[0][1] = true;
    occupied[1][0] = true;
    let mut handle: Handle = Interface::launch(2);
    let mut search = Search::new(occupied);
    handle.request_next_move(0);
    let bot = handle.coordinator();
    assert_eq!(bot.begin_iteration(&mut search), Begun::Published { tasks: 2, outputs: 0 });
    assert_eq!(bot.end_iteration(&mut search, Source::Commands), Turn::Applied);
    assert_eq!(bot.work(0), Worked::Done);
    assert_eq!(bot.work(1), Worked::Done);
    assert_eq!(bot.begin_iteration(&mut search), Begun::Published { tasks: 0, outputs: 0 });
    assert_eq!(bot.end_iteration(&mut search, Source::Commands), Turn::Integrated);
    assert_eq!(bot.begin_iteration(&mut search), Begun::Published { tasks: 0, outputs: 0 });
    assert_eq!(bot.end_iteration(&mut search, Source::Commands), Turn::Integrated);
    assert_eq!(bot.begin_iteration(&mut search), Begun::Published { tasks: 0, outputs: 1 });
    assert_eq!(
        handle.poll_next_move(),
        Some(Decision { generation: 0, filled_cells: 3, score: 30 })
    );
}

#[test]
fn disconnect_ends_the_loop_within_one_iteration_and_releases_the_workers() {
    let mut handle: Handle = Interface::launch(2);
    let mut search = Search::new(EMPTY);
    let bot = handle.coordinator();
    assert_eq!(bot.begin_iteration(&mut search), Begun::Published { tasks: 2, outputs: 0 });
    assert_eq!(bot.end_iteration(&mut search, Source::Commands), Turn::Pending);
    assert_eq!(bot.acquire(0), Acquired::Task(Probe { generation: 0, number: 1 }));

    handle.disconnect();

    let bot = handle.coordinator();
    assert_eq!(bot.end_iteration(&mut search, Source::Commands), Turn::Closed);
    assert!(bot.is_stopped());
    assert_eq!(bot.begin_iteration(&mut search), Begun::Stopped);
    assert_eq!(search.advances, 1);

    // Nothing is dispatched any more, and the task that nobody had acquired
    // is gone.
    bot.publish(vec![Probe { generation: 9, number: 9 }], vec![]);
    assert_eq!(bot.work(1), Worked::Closed);
    // The worker that was busy finishes, finds the supply closed and leaves.
    assert_eq!(bot.work(0), Worked::Refused);
    assert!(bot.complete(0, Probe { generation: 0, number: 1 }.run()));
    assert_eq!(bot.work(0), Worked::Closed);
    assert_eq!(bot.work(0), Worked::Closed);
    assert_eq!(bot.work(1), Worked::Closed);
    assert_eq!(bot.end_iteration(&mut search, Source::Results), Turn::Closed);
    assert_eq!(search.stale, 0);
    assert_eq!(search.gathered.len(), 0);
}

#[test]
fn terminal_search_ends_the_loop_and_the_handle_finds_out() {
    let mut handle: Handle = Interface::launch(2);
    let mut search = Search::new(EMPTY);
    handle.request_next_move(0);
    let bot = handle.coordinator();
    assert_eq!(bot.begin_iteration(&mut search), Begun::Published { tasks: 2, outputs: 0 });
    assert_eq!(bot.end_iteration(&mut search, Source::Commands), Turn::Applied);
    search.lost = true;
    assert_eq!(bot.begin_iteration(&mut search), Begun::Stopped);
    assert!(bot.is_stopped());
    assert_eq!(search.advances, 1);
    assert!(!handle.is_dead());
    handle.add_next_piece('J');
    assert!(handle.is_dead());
    let bot = handle.coordinator();
    assert_eq!(bot.end_iteration(&mut search, Source::Commands), Turn::Closed);
    assert_eq!(search.pieces.len(), 0);
    assert_eq!(bot.work(0), Worked::Closed);
    assert_eq!(bot.work(1), Worked::Closed);
}

#[test]
fn a_stopped_coordinator_does_not_touch_the_algorithm() {
    let mut handle: Handle = Interface::launch(1);
    let mut search = Search::new(EMPTY);
    handle.add_next_piece('T');
    let bot = handle.coordinator();
    bot.keep_running(true);
    search.lost = false;
    assert_eq!(bot.begin_iteration(&mut search), Begun::Stopped);
    assert_eq!(bot.end_iteration(&mut search, Source::Commands), Turn::Closed);
    assert_eq!(search.advances, 0);
    assert_eq!(search.pieces.len(), 0);
}

#[test]
fn every_kind_of_command_reaches_the_algorithm_in_order() {
    let mut handle: Handle = Interface::launch(1);
    let mut search = Search::new(EMPTY);
    let mut field = EMPTY;
    field[5][5] = true;
    handle.add_next_piece('S');
    handle.force_analysis_line(vec![(1, 2), (3, 4)]);
    handle.reset(field, true, 2);
    handle.add_next_piece('Z');
    handle.request_next_move(7);
    let bot = handle.coordinator();
    for _ in 0..5 {
        assert!(bot.begin_iteration(&mut search) != Begun::Stopped);
        assert_eq!(bot.end_iteration(&mut search, Source::Commands), Turn::Applied);
    }
    assert_eq!(bot.end_iteration(&mut search, Source::Commands), Turn::Pending);
    assert_eq!(search.pieces, vec!['S', 'Z']);
    assert_eq!(search.lines, vec![vec![(1, 2), (3, 4)]]);
    assert_eq!(search.field, field);
    assert_eq!(search.generation, 1);
    assert!(search.requested);
    assert_eq!(search.advances, 5);
}

#[test]
fn work_executes_the_task_and_hands_in_its_outcome() {
    let mut handle: Handle = Interface::launch(2);
    let bot = handle.coordinator();
    assert_eq!(bot.work(0), Worked::Empty);
    assert_eq!(bot.work(2), Worked::Refused);
    bot.publish(vec![Probe { generation: 4, number: 6 }], vec![]);
    assert_eq!(bot.work(1), Worked::Done);
    assert_eq!(bot.work(1), Worked::Empty);
    assert_eq!(bot.wait(Source::Results), Wakeup::Finished(Reading { generation: 4, value: 60 }));
    assert_eq!(bot.wait(Source::Results), Wakeup::Pending);
}

#[test]
fn outcomes_that_arrive_in_reverse_order_are_integrated_as_they_come() {
    let mut handle: Interface<char, (i32, i32), u32, u32, u32> = Interface::launch(4);
    let bot = handle.coordinator();
    bot.publish(vec![1, 2, 3, 4], vec![]);
    assert_eq!(bot.acquire(0), Acquired::Task(1));
    assert_eq!(bot.acquire(1), Acquired::Task(2));
    assert_eq!(bot.acquire(2), Acquired::Task(3));
    assert_eq!(bot.acquire(3), Acquired::Task(4));
    assert!(bot.complete(3, 40));
    assert!(bot.complete(2, 30));
    assert!(bot.complete(1, 20));
    assert!(bot.complete(0, 10));
    assert_eq!(bot.wait(Source::Results), Wakeup::Finished(40));
    assert_eq!(bot.wait(Source::Results), Wakeup::Finished(30));
    assert_eq!(bot.wait(Source::Results), Wakeup::Finished(20));
    assert_eq!(bot.wait(Source::Results), Wakeup::Finished(10));
    assert_eq!(bot.wait(Source::Results), Wakeup::Pending);
    assert!(!bot.is_stopped());
    bot.publish(vec![5], vec![]);
    assert_eq!(bot.acquire(2), Acquired::Task(5));
}

/// A small linear congruential generator, so that a schedule can be drawn
/// from a seed.
struct Dice(u64);

impl Dice {
    fn roll(&mut self, sides: u64) -> u64 {
        self.0 = self.0.wrapping_mul(6364136223846793005).wrapping_add(1442695040888963407);
        (self.0 >> 33) % sides
    }
}

/// Runs a schedule drawn from `seed` on a pool of `threads` workers and
/// checks, step by step, that no ready source leaves a wait pending, that
/// every task is delivered once and in order, and that every outcome reaches
/// the algorithm once.
fn run_schedule(seed: u64, threads: u32) {
    let mut dice = Dice(seed);
    let mut handle: Interface<char, (i32, i32), u32, u32, u32> = Interface::launch(threads);
    let mut next_task: u32 = 0;
    let mut next_delivery: u32 = 0;
    let mut holding: Vec<Option<u32>> = vec![None; threads as usize];
    let mut handed_in: Vec<u32> = Vec::new();
    let mut integrated: Vec<u32> = Vec::new();
    let mut commands_sent: u32 = 0;
    let mut commands_applied: u32 = 0;
    for _ in 0..400 {
        match dice.roll(5) {
            0 => {
                handle.request_next_move(commands_sent);
                assert!(!handle.is_dead());
                commands_sent += 1;
            }
            1 => {
                let count = dice.roll(3) as u32;
                let tasks: Vec<u32> = (next_task..next_task + count).collect();
                next_task += count;
                handle.coordinator().publish(tasks, vec![]);
            }
            2 => {
                let worker = dice.roll(threads as u64) as usize;
                match handle.coordinator().acquire(worker) {
                    Acquired::Task(task) => {
                        assert_eq!(holding[worker], None);
                        assert_eq!(task, next_delivery);
                        next_delivery += 1;
                        holding[worker] = Some(task);
                    }
                    Acquired::Empty => {
                        assert_eq!(holding[worker], None);
                        assert_eq!(next_delivery, next_task);
                    }
                    Acquired::Refused => assert!(holding[worker].is_some()),
                    Acquired::Closed => panic!("the supply is open"),
                }
            }
            3 => {
                let worker = dice.roll(threads as u64) as usize;
                let accepted = handle.coordinator().complete(worker, 1000 + worker as u32);
                assert_eq!(accepted, holding[worker].is_some());
                if let Some(task) = holding[worker].take() {
                    handed_in.push(task);
                    assert!(!handle.coordinator().complete(worker, 0));
                }
            }
            _ => {
                let prefer = if dice.roll(2) == 0 { Source::Commands } else { Source::Results };
                let command_ready = commands_applied < commands_sent;
                let outcome_ready = integrated.len() < handed_in.len();
                match handle.coordinator().wait(prefer) {
                    Wakeup::Message(BotMsg::NextMove(number)) => {
                        assert!(command_ready);
                        assert!(prefer == Source::Commands || !outcome_ready);
                        assert_eq!(number, commands_applied);
                        commands_applied += 1;
                    }
                    Wakeup::Finished(outcome) => {
                        assert!(outcome_ready);
                        assert!(prefer == Source::Results || !command_ready);
                        assert!(outcome >= 1000);
                        integrated.push(outcome);
                    }
                    Wakeup::Pending => {
                        assert!(!command_ready);
                        assert!(!outcome_ready);
                    }
                    other => panic!("unexpected wake-up: {:?}", other),
                }
            }
        }
    }
    assert!(integrated.len() <= handed_in.len());
    assert!(handed_in.len() as u32 <= next_delivery);
    assert!(next_delivery <= next_task);
    assert_eq!(handle.poll_next_move(), None);
    assert!(!handle.is_dead());
}

#[test]
fn no_interleaving_of_commands_and_completions_stalls_the_coordinator() {
    for seed in 0..50 {
        run_schedule(seed, 1);
        run_schedule(seed, 2);
        run_schedule(seed, 5);
    }
}
