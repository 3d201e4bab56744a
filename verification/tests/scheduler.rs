use tempo::tick::Tickable;
use tempo::tick::Ticker;

struct TestTickable {
    counter: u32,
}

impl Tickable for TestTickable {
    fn tick(&mut self) {
        self.counter += 1;
    }
}

#[test]
fn test_ticker() {
    let mut ticker: Ticker<TestTickable> = Ticker::new();

    let test_tickable = TestTickable { counter: 0 };

    ticker.add_tickable(100, test_tickable);
    ticker.start();

    ticker.run_for(350);
    ticker.stop();

    // Should have 3 ticks
    assert!(ticker.task_at(0).counter == 3);
}

#[test]
fn test_multiple_frequencies() {
    let mut ticker: Ticker<TestTickable> = Ticker::new();

    ticker.add_tickable(100, TestTickable { counter: 0 });
    ticker.add_tickable(200, TestTickable { counter: 0 });

    ticker.start();
    ticker.run_for(550);
    ticker.stop();

    // First counter should have 5 ticks, second counter should have 2 ticks
    assert!(ticker.task_at(0).counter == 5);
    assert!(ticker.task_at(1).counter == 2);
}

#[test]
fn first_fire_is_delayed_by_one_period() {
    let mut ticker: Ticker<TestTickable> = Ticker::new();
    ticker.add_tickable(100, TestTickable { counter: 0 });
    ticker.start();
    ticker.run_for(99);
    assert_eq!(ticker.fires_at(0), 0);
    ticker.run_for(1);
    assert_eq!(ticker.fires_at(0), 1);
}

#[test]
fn cadence_is_floor_of_window_over_frequency() {
    let mut ticker: Ticker<TestTickable> = Ticker::new();
    ticker.add_tickable(100, TestTickable { counter: 0 });
    ticker.start();
    ticker.run_for(400);
    assert_eq!(ticker.fires_at(0), 4);
    assert_eq!(ticker.task_at(0).counter, 4);
}

#[test]
fn split_windows_fire_like_one_window() {
    let mut ticker: Ticker<TestTickable> = Ticker::new();
    ticker.add_tickable(100, TestTickable { counter: 0 });
    ticker.start();
    ticker.run_for(100);
    assert_eq!(ticker.fires_at(0), 1);
    ticker.run_for(250);
    assert_eq!(ticker.fires_at(0), 3);
}

#[test]
fn stopped_scheduler_never_fires() {
    let mut ticker: Ticker<TestTickable> = Ticker::new();
    ticker.add_tickable(100, TestTickable { counter: 0 });
    ticker.run_for(1000);
    assert_eq!(ticker.fires_at(0), 0);
    assert_eq!(ticker.task_at(0).counter, 0);
}

#[test]
fn task_registered_mid_run_keeps_its_own_cadence() {
    let mut ticker: Ticker<TestTickable> = Ticker::new();
    ticker.add_tickable(100, TestTickable { counter: 0 });
    ticker.start();
    ticker.run_for(250);
    assert_eq!(ticker.fires_at(0), 2);
    // Registered at clock 250: first deadline 400, then 550, 700, ...
    ticker.add_tickable(150, TestTickable { counter: 0 });
    ticker.run_for(500);
    assert_eq!(ticker.fires_at(0), 7);
    assert_eq!(ticker.fires_at(1), 3);
    assert_eq!(ticker.task_count(), 2);
}
