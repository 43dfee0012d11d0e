use last_snow::layout::{next_slot, LogFile};
use last_snow::record::{count_rows, needs_header, Record};
use last_snow::settings::{SettingValue, Settings};
use last_snow::submit::{new_row_notification, plan_writes, rotation_slot, should_rotate, stamp, SubmitError};
use std::collections::BTreeMap;

fn record(language: &str, sentence: &str, timestamp: &str) -> Record {
    Record::new(language, sentence, timestamp)
}

#[test]
fn encodes_with_and_without_header() {
    let r = record("en", "hello", "2024-03-05T10:00:00+00:00");
    assert_eq!(r.encode(true), b"language,sentence,timestamp\nen,hello,2024-03-05T10:00:00+00:00\n".to_vec());
    assert_eq!(r.encode(false), b"en,hello,2024-03-05T10:00:00+00:00\n".to_vec());
}

#[test]
fn encoding_quotes_delimiters() {
    let r = record("en", "a, \"b\"", "t");
    assert_eq!(r.encode(false), b"en,\"a, \"\"b\"\"\",t\n".to_vec());
}

#[test]
fn counts_rows_after_the_header() {
    assert_eq!(count_rows(&Some(b"language,sentence,timestamp\nen,a,t1\nfr,b,t2\n".to_vec())), 2);
    assert_eq!(count_rows(&Some(b"language,sentence,timestamp\n".to_vec())), 0);
    assert_eq!(count_rows(&Some(Vec::new())), 0);
}

#[test]
fn missing_file_counts_as_empty() {
    assert_eq!(count_rows(&None), 0);
}

#[test]
fn unparseable_file_counts_as_empty() {
    assert_eq!(count_rows(&Some(b"language,sentence,timestamp\nen,a\n".to_vec())), 0);
    assert_eq!(count_rows(&Some(vec![b'a', b'\n', 0xff, 0xfe, b'\n'])), 0);
}

#[test]
fn header_only_for_empty_files() {
    assert!(needs_header(0));
    assert!(!needs_header(1));
}

#[test]
fn rotation_after_the_cap_is_reached() {
    assert!(!should_rotate(0, 3));
    assert!(!should_rotate(1, 3));
    assert!(should_rotate(2, 3));
    assert!(should_rotate(5, 3));
    assert!(should_rotate(0, 1));
    assert!(should_rotate(0, 0));
}

#[test]
fn rotation_slot_picks_next_free_slot() {
    let listing = vec!["1.csv".to_string(), "ALL".to_string()];
    assert!(matches!(rotation_slot(0, 2, &listing), Ok(None)));
    assert!(matches!(rotation_slot(1, 2, &listing), Ok(Some(2))));
    let full = vec!["18446744073709551615.csv".to_string()];
    assert!(matches!(rotation_slot(1, 2, &full), Err(SubmitError::SlotsExhausted)));
    assert!(matches!(rotation_slot(0, 2, &full), Ok(None)));
}

#[test]
fn stamp_keeps_language_and_text() {
    let (r, dir) = stamp("en", "hello");
    assert_eq!(r.language, "en");
    assert_eq!(r.sentence, "hello");
    assert!(r.timestamp.ends_with("+00:00"));
    assert_eq!(&r.timestamp[4..5], "-");
    assert_eq!(&r.timestamp[10..11], "T");
    assert_eq!(dir.len(), 10);
}

#[test]
fn plan_puts_header_on_new_files_only() {
    let r = record("en", "hello", "t1");
    let existing = Some(b"language,sentence,timestamp\nfr,x,t0\n".to_vec());
    let plan = plan_writes(&r, "05-03-2024", &None, &existing, &None);
    assert_eq!(plan.appends.len(), 3);
    assert!(matches!(&plan.appends[0].file, LogFile::Daily(d) if d == "05-03-2024"));
    assert_eq!(plan.appends[0].bytes, b"language,sentence,timestamp\nen,hello,t1\n".to_vec());
    assert_eq!(plan.appends[1].bytes, b"en,hello,t1\n".to_vec());
    assert_eq!(plan.appends[2].bytes, b"language,sentence,timestamp\nen,hello,t1\n".to_vec());
    assert_eq!(plan.hot_rows_before, 0);
}

#[test]
fn notification_carries_the_sentence() {
    let mut s = Settings::new();
    assert!(new_row_notification(&s, "hello").is_none());
    s.insert("td_osc_address", SettingValue::Text("127.0.0.1:9000".to_string()));
    let n = new_row_notification(&s, "hello").unwrap();
    assert_eq!(n.target, "127.0.0.1:9000");
    assert_eq!(n.payload, b"/new_row\0\0\0\0,s\0\0hello\0\0\0".to_vec());
}

#[test]
fn notification_needs_a_string_target() {
    let mut s = Settings::new();
    s.insert("td_osc_address", SettingValue::Int(5));
    assert!(new_row_notification(&s, "hello").is_none());
}

/// The log directory kept in memory, driven the way the application drives
/// the real one.
struct Disk {
    files: BTreeMap<Vec<String>, Vec<u8>>,
}

impl Disk {
    fn new() -> Disk {
        Disk { files: BTreeMap::new() }
    }

    fn read(&self, f: &LogFile) -> Option<Vec<u8>> {
        self.files.get(&f.segments()).cloned()
    }

    fn listing(&self) -> Vec<String> {
        let mut names: Vec<String> = Vec::new();
        for k in self.files.keys() {
            if k.len() >= 2 && k[0] == "sentences" && !names.contains(&k[1]) {
                names.push(k[1].clone());
            }
        }
        names
    }

    fn submit(&mut self, r: &Record, day: &str, cap: usize) {
        let daily = LogFile::Daily(day.to_string());
        let plan = plan_writes(r, day, &self.read(&daily), &self.read(&LogFile::All), &self.read(&LogFile::Hot));
        for a in &plan.appends {
            self.files.entry(a.file.segments()).or_default().extend_from_slice(&a.bytes);
        }
        if let Ok(Some(slot)) = rotation_slot(plan.hot_rows_before, cap, &self.listing()) {
            let hot = self.files.remove(&LogFile::Hot.segments()).unwrap();
            assert!(self.files.insert(LogFile::Rotated(slot).segments(), hot).is_none());
        }
    }

    fn rows(&self, f: &LogFile) -> usize {
        count_rows(&self.read(f))
    }

    fn remove_all_csv(&mut self) {
        let rotated: Vec<Vec<String>> = self.files.keys().filter(|k| k.len() == 2 && k[0] == "sentences").cloned().collect();
        for k in rotated {
            self.files.remove(&k);
        }
        self.files.remove(&LogFile::Hot.segments());
    }
}

#[test]
fn cap_two_three_submissions() {
    let mut disk = Disk::new();
    disk.submit(&record("en", "hello", "t1"), "05-03-2024", 2);
    disk.submit(&record("fr", "bonjour", "t2"), "05-03-2024", 2);
    disk.submit(&record("de", "hallo", "t3"), "05-03-2024", 2);
    assert_eq!(
        disk.read(&LogFile::Rotated(1)).unwrap(),
        b"language,sentence,timestamp\nen,hello,t1\nfr,bonjour,t2\n".to_vec()
    );
    assert_eq!(disk.read(&LogFile::Hot).unwrap(), b"language,sentence,timestamp\nde,hallo,t3\n".to_vec());
    assert_eq!(disk.rows(&LogFile::Hot), 1);
    assert!(disk.read(&LogFile::Rotated(2)).is_none());
}

#[test]
fn rotation_fills_slot_one_then_two() {
    let cap = 3;
    let mut disk = Disk::new();
    for i in 0..cap {
        disk.submit(&record("en", &format!("s{}", i), "t"), "05-03-2024", cap);
    }
    assert!(disk.read(&LogFile::Hot).is_none());
    assert_eq!(disk.rows(&LogFile::Rotated(1)), cap);
    disk.submit(&record("en", "next", "t"), "05-03-2024", cap);
    assert_eq!(disk.rows(&LogFile::Hot), 1);
    for i in 1..cap {
        disk.submit(&record("en", &format!("n{}", i), "t"), "05-03-2024", cap);
    }
    assert_eq!(disk.rows(&LogFile::Rotated(2)), cap);
    assert_eq!(disk.rows(&LogFile::Rotated(1)), cap);
    assert!(disk.read(&LogFile::Hot).is_none());
    assert_eq!(next_slot(&disk.listing()), Some(3));
}

#[test]
fn every_submission_lands_once_in_order() {
    let mut disk = Disk::new();
    disk.submit(&record("en", "a", "t1"), "05-03-2024", 100);
    disk.submit(&record("fr", "b", "t2"), "05-03-2024", 100);
    disk.submit(&record("de", "c", "t3"), "06-03-2024", 100);
    assert_eq!(
        disk.read(&LogFile::All).unwrap(),
        b"language,sentence,timestamp\nen,a,t1\nfr,b,t2\nde,c,t3\n".to_vec()
    );
    assert_eq!(
        disk.read(&LogFile::Daily("05-03-2024".to_string())).unwrap(),
        b"language,sentence,timestamp\nen,a,t1\nfr,b,t2\n".to_vec()
    );
    assert_eq!(
        disk.read(&LogFile::Daily("06-03-2024".to_string())).unwrap(),
        b"language,sentence,timestamp\nde,c,t3\n".to_vec()
    );
}

#[test]
fn remove_all_then_submit_starts_fresh() {
    let mut disk = Disk::new();
    for i in 0..5 {
        disk.submit(&record("en", &format!("s{}", i), "t"), "05-03-2024", 2);
    }
    assert_eq!(disk.rows(&LogFile::Hot), 1);
    disk.remove_all_csv();
    assert_eq!(disk.rows(&LogFile::Hot), 0);
    disk.submit(&record("fr", "again", "t9"), "05-03-2024", 2);
    assert_eq!(disk.read(&LogFile::Hot).unwrap(), b"language,sentence,timestamp\nfr,again,t9\n".to_vec());
    assert!(disk.read(&LogFile::Rotated(1)).is_none());
}
