use rayon::iter::{IndexedParallelIterator, IntoParallelIterator, ParallelIterator};

use hashcheck::digest::digest_of_bytes;
use hashcheck::engine::{
    hash_checker, prepare_hashing, CheckReceipt, DigestOutcome, Message, Outcome, Setting,
};
use hashcheck::hash_pair::{sort_pairs, HashPair};
use hashcheck::manifest::hash_list_parser;
use hashcheck::status::{SharedStatus, Status, StatusWrapper};

const ABC_MD5: &str = "900150983cd24fb0d6963f7d28e17f72";

fn shared_sink() -> (SharedStatus, StatusWrapper) {
    let shared = SharedStatus::new();
    let sink = StatusWrapper::Status(shared.clone_handle());
    (shared, sink)
}

fn sequential_setting() -> Setting {
    Setting { parallel: false, sort: false, block_size: 8192 }
}

fn run_sequential(
    items: Vec<HashPair>,
    setting: Setting,
    digest_for: impl Fn(&str) -> DigestOutcome,
) -> (Status, Vec<Message>) {
    let (shared, sink) = shared_sink();
    let (tx, rx) = crossbeam::channel::unbounded();
    let mut run = prepare_hashing(items, &setting, sink, tx);
    loop {
        let path = match run.next_path() {
            Some(p) => p.clone(),
            None => break,
        };
        run.step(digest_for(&path));
    }
    run.finish();
    let events: Vec<Message> = rx.try_iter().collect();
    (shared.snapshot(), events)
}

fn counts(status: &Status) -> (usize, usize, usize) {
    (status.correct_num, status.incorrect_num, status.error_num)
}

fn event_key(message: &Message) -> String {
    match message {
        Message::Incorrect(path) => format!("incorrect {path}"),
        Message::Error(description) => format!("error {description}"),
        Message::Completed(_) => String::from("completed"),
        Message::Empty => String::from("empty"),
    }
}

#[test]
fn scenario_empty_file_all_correct() {
    let items = hash_list_parser("d41d8cd98f00b204e9800998ecf8427e *empty.txt").unwrap();
    assert_eq!(items.len(), 1);
    let computed = digest_of_bytes(&[], 8192);
    assert_eq!(computed, "d41d8cd98f00b204e9800998ecf8427e");
    let (status, events) = run_sequential(items, sequential_setting(), |_| {
        DigestOutcome::Computed(digest_of_bytes(&[], 8192))
    });
    assert_eq!(counts(&status), (1, 0, 0));
    assert_eq!(events.len(), 1);
    assert!(matches!(events[0], Message::Completed(_)));
}

#[test]
fn scenario_missing_file_counts_one_error() {
    let items = hash_list_parser("d41d8cd98f00b204e9800998ecf8427e *missing.txt").unwrap();
    let (status, events) = run_sequential(items, sequential_setting(), |p| {
        DigestOutcome::Failed(format!("cannot open {p}"))
    });
    assert_eq!(counts(&status), (0, 0, 1));
    assert_eq!(events.len(), 2);
    assert!(matches!(&events[0], Message::Error(e) if e == "cannot open missing.txt"));
    assert!(matches!(events[1], Message::Completed(_)));
}

#[test]
fn scenario_mismatch_counts_one_incorrect() {
    let items = hash_list_parser("900150983cd24fb0d6963f7d28e17f72 *data.bin").unwrap();
    let (status, events) = run_sequential(items, sequential_setting(), |_| {
        DigestOutcome::Computed(digest_of_bytes(b"abd", 8192))
    });
    assert_eq!(counts(&status), (0, 1, 0));
    assert_eq!(events.len(), 2);
    assert!(matches!(&events[0], Message::Incorrect(p) if p == "data.bin"));
    assert!(matches!(events[1], Message::Completed(_)));
}

#[test]
fn sequential_events_follow_list_order() {
    let text = "900150983cd24fb0d6963f7d28e17f72 *good.bin\n\
                900150983cd24fb0d6963f7d28e17f72 *bad1.bin\n\
                900150983cd24fb0d6963f7d28e17f72 *lost.bin\n\
                900150983cd24fb0d6963f7d28e17f72 *bad2.bin\n";
    let items = hash_list_parser(text).unwrap();
    let (status, events) = run_sequential(items, sequential_setting(), |p| match p {
        "good.bin" => DigestOutcome::Computed(digest_of_bytes(b"abc", 1024)),
        "lost.bin" => DigestOutcome::Failed(String::from("unreadable")),
        _ => DigestOutcome::Computed(digest_of_bytes(b"other", 1024)),
    });
    assert_eq!(counts(&status), (1, 2, 1));
    let keys: Vec<String> = events.iter().map(event_key).collect();
    assert_eq!(
        keys,
        vec![
            String::from("incorrect bad1.bin"),
            String::from("error unreadable"),
            String::from("incorrect bad2.bin"),
            String::from("completed"),
        ]
    );
}

#[test]
fn counts_account_for_every_item_sequentially() {
    let mut text = String::new();
    for i in 0..9 {
        text.push_str(&format!("900150983cd24fb0d6963f7d28e17f72 *f{i}.bin\n"));
    }
    let items = hash_list_parser(&text).unwrap();
    let (status, _) = run_sequential(items, sequential_setting(), |p| match p {
        "f0.bin" | "f3.bin" => DigestOutcome::Computed(digest_of_bytes(b"abc", 1024)),
        "f1.bin" | "f4.bin" | "f5.bin" => DigestOutcome::Failed(String::from("io")),
        _ => DigestOutcome::Computed(digest_of_bytes(b"nope", 1024)),
    });
    assert_eq!(counts(&status), (2, 4, 3));
    assert_eq!(status.correct_num + status.incorrect_num + status.error_num, 9);
}

#[test]
fn counts_account_for_every_item_in_parallel() {
    let mut text = String::new();
    for i in 0..200 {
        text.push_str(&format!("900150983cd24fb0d6963f7d28e17f72 *f{i}.bin\n"));
    }
    let items = hash_list_parser(&text).unwrap();
    let n = items.len();
    assert_eq!(n, 200);
    let (shared, sink) = shared_sink();
    let (tx, rx) = crossbeam::channel::unbounded();
    let setting = Setting { parallel: true, sort: false, block_size: 8192 };
    let run = prepare_hashing(items, &setting, sink, tx);
    let (workers, finisher) = run.into_parallel();
    assert_eq!(workers.len(), n);
    let receipts: Vec<CheckReceipt> = workers
        .into_par_iter()
        .enumerate()
        .map(|(i, check)| {
            let outcome = match i % 3 {
                0 => DigestOutcome::Computed(digest_of_bytes(b"abc", 1024)),
                1 => DigestOutcome::Computed(digest_of_bytes(b"nope", 1024)),
                _ => DigestOutcome::Failed(String::from("io failure")),
            };
            check.check(outcome)
        })
        .collect();
    assert_eq!(receipts.len(), finisher.count());
    let correct_receipts = receipts
        .iter()
        .filter(|r| r.outcome() == Outcome::Correct)
        .count();
    assert_eq!(correct_receipts, 67);
    finisher.finish(receipts);
    let status = shared.snapshot();
    assert_eq!(status.correct_num + status.incorrect_num + status.error_num, n);
    assert_eq!(counts(&status), (67, 67, 66));
    let events: Vec<Message> = rx.try_iter().collect();
    assert_eq!(events.len(), 67 + 66 + 1);
    assert!(matches!(events.last().unwrap(), Message::Completed(_)));
}

#[test]
fn rerun_of_same_contents_is_identical() {
    let text = "900150983cd24fb0d6963f7d28e17f72 *x.bin\n\
                900150983cd24fb0d6963f7d28e17f72 *y.bin\n\
                900150983cd24fb0d6963f7d28e17f72 *z.bin\n";
    let digest_for = |p: &str| match p {
        "x.bin" => DigestOutcome::Computed(digest_of_bytes(b"abc", 1024)),
        "y.bin" => DigestOutcome::Computed(digest_of_bytes(b"drifted", 1024)),
        _ => DigestOutcome::Failed(String::from("gone")),
    };
    let items_first = hash_list_parser(text).unwrap();
    let items_second = hash_list_parser(text).unwrap();
    let (status_first, events_first) =
        run_sequential(items_first, sequential_setting(), digest_for);
    let (status_second, events_second) =
        run_sequential(items_second, sequential_setting(), digest_for);
    assert_eq!(counts(&status_first), counts(&status_second));
    assert_eq!(status_first.file_hash, status_second.file_hash);
    let keys_first: Vec<String> = events_first.iter().map(event_key).collect();
    let keys_second: Vec<String> = events_second.iter().map(event_key).collect();
    assert_eq!(keys_first, keys_second);
}

#[test]
fn sorted_run_checks_items_in_order() {
    let text = "d41d8cd98f00b204e9800998ecf8427e *zz.txt\n\
                d41d8cd98f00b204e9800998ecf8427e *aa.txt\n\
                d41d8cd98f00b204e9800998ecf8427e *mm.txt\n";
    let items = hash_list_parser(text).unwrap();
    let setting = Setting { parallel: false, sort: true, block_size: 8192 };
    let (shared, sink) = shared_sink();
    let (tx, rx) = crossbeam::channel::unbounded();
    let mut run = prepare_hashing(items, &setting, sink, tx);
    let mut visited: Vec<String> = Vec::new();
    loop {
        let path = match run.next_path() {
            Some(p) => p.clone(),
            None => break,
        };
        visited.push(path);
        run.step(DigestOutcome::Computed(digest_of_bytes(b"seen", 1024)));
    }
    run.finish();
    assert_eq!(
        visited,
        vec![String::from("aa.txt"), String::from("mm.txt"), String::from("zz.txt")]
    );
    let status = shared.snapshot();
    assert_eq!(counts(&status), (0, 3, 0));
    let keys: Vec<String> = rx.try_iter().map(|m| event_key(&m)).collect();
    assert_eq!(
        keys,
        vec![
            String::from("incorrect aa.txt"),
            String::from("incorrect mm.txt"),
            String::from("incorrect zz.txt"),
            String::from("completed"),
        ]
    );
}

#[test]
fn sort_orders_equal_paths_by_hash() {
    let mut pairs = vec![
        HashPair::new(String::from("p.bin"), String::from(ABC_MD5)),
        HashPair::new(String::from("p.bin"), String::from("0123456789abcdef0123456789abcdef")),
        HashPair::new(String::from("a.bin"), String::from(ABC_MD5)),
    ];
    sort_pairs(&mut pairs);
    assert_eq!(pairs[0].file_path, "a.bin");
    assert_eq!(pairs[1].file_path, "p.bin");
    assert_eq!(pairs[1].expected_hash, "0123456789abcdef0123456789abcdef");
    assert_eq!(pairs[2].expected_hash, ABC_MD5);
}

#[test]
fn sort_orders_by_code_point() {
    let mut pairs = vec![
        HashPair::new(String::from("é.txt"), String::from(ABC_MD5)),
        HashPair::new(String::from("z.txt"), String::from(ABC_MD5)),
    ];
    sort_pairs(&mut pairs);
    assert_eq!(pairs[0].file_path, "z.txt");
    assert_eq!(pairs[1].file_path, "é.txt");
}

#[test]
fn dropped_receiver_does_not_stop_the_run() {
    let items = hash_list_parser(
        "900150983cd24fb0d6963f7d28e17f72 *a.bin\n900150983cd24fb0d6963f7d28e17f72 *b.bin\n",
    )
    .unwrap();
    let (shared, sink) = shared_sink();
    let (tx, rx) = crossbeam::channel::unbounded();
    drop(rx);
    let mut run = prepare_hashing(items, &sequential_setting(), sink, tx);
    loop {
        let path = match run.next_path() {
            Some(p) => p.clone(),
            None => break,
        };
        assert!(!path.is_empty());
        run.step(DigestOutcome::Computed(digest_of_bytes(b"changed", 1024)));
    }
    run.finish();
    let status = shared.snapshot();
    assert_eq!(counts(&status), (0, 2, 0));
}

#[test]
fn progress_bar_sink_ticks_every_outcome() {
    let bar = indicatif::ProgressBar::hidden();
    let sink = StatusWrapper::ProgressBar(bar.clone());
    let (tx, rx) = crossbeam::channel::unbounded();
    let pair = HashPair::new(String::from("a.bin"), String::from(ABC_MD5));
    let first = hash_checker(
        &pair,
        DigestOutcome::Computed(String::from("badbadbadbadbadbadbadbadbadbad00")),
        &sink,
        &tx,
    );
    let second = hash_checker(&pair, DigestOutcome::Failed(String::from("io")), &sink, &tx);
    let third = hash_checker(&pair, DigestOutcome::Computed(String::from(ABC_MD5)), &sink, &tx);
    assert_eq!(first, Outcome::Incorrect);
    assert_eq!(second, Outcome::Error);
    assert_eq!(third, Outcome::Correct);
    assert_eq!(bar.position(), 3);
    drop(tx);
    let events: Vec<Message> = rx.try_iter().collect();
    assert_eq!(events.len(), 2);
}

#[test]
fn aggregate_sink_records_last_item_text() {
    let items = hash_list_parser("900150983cd24fb0d6963f7d28e17f72 *last.bin").unwrap();
    let (status, _) = run_sequential(items, sequential_setting(), |_| {
        DigestOutcome::Computed(digest_of_bytes(b"abc", 1024))
    });
    assert_eq!(status.filename, "last.bin");
    assert_eq!(status.file_hash, ABC_MD5);
    assert_eq!(status.expected_hash, ABC_MD5);
}

#[test]
fn status_record_counts_and_text() {
    let mut status = Status::default();
    assert_eq!(counts(&status), (0, 0, 0));
    status.inc_correct();
    status.inc_correct();
    status.inc_error();
    status.set_text(
        String::from("f.bin"),
        String::from("aa"),
        String::from("bb"),
    );
    assert_eq!(counts(&status), (2, 0, 1));
    assert_eq!(status.filename, "f.bin");
    assert_eq!(status.file_hash, "aa");
    assert_eq!(status.expected_hash, "bb");
}

#[test]
fn block_size_has_a_floor_and_a_ceiling() {
    let mut setting = Setting::default();
    assert_eq!(setting.block_size, 8192);
    assert!(setting.parallel);
    assert!(!setting.sort);
    setting.decrease_block_size(1_000_000);
    assert_eq!(setting.block_size, 1024);
    setting.increase_block_size(1024);
    assert_eq!(setting.block_size, 2048);
    setting.increase_block_size(usize::MAX);
    assert_eq!(setting.block_size, usize::MAX);
    setting.decrease_block_size(usize::MAX);
    assert_eq!(setting.block_size, 1024);
}
