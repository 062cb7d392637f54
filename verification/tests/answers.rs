use time_formatting::answers::next_to_write;
use time_formatting::output::Output;

/// A writer that takes up to a number of bytes, and answers each write as a whole.
struct Limited {
    room: usize,
    handed: Vec<String>,
}

impl Limited {
    fn new(room: usize) -> Self {
        Limited { room, handed: Vec::new() }
    }

    fn answer(&mut self, s: &str) -> Result<(), String> {
        self.handed.push(s.to_string());
        if s.len() <= self.room {
            self.room -= s.len();
            Ok(())
        } else {
            Err(format!("no room for {s}"))
        }
    }
}

fn write_many<const N: usize>(
    output: &mut Output,
    writer: &mut Limited,
    arr: [&str; N],
) -> Result<(), String> {
    let mut answers = Vec::new();
    while let Some(s) = next_to_write(arr, &answers) {
        answers.push(writer.answer(s));
    }
    output.write_many_answered(arr, answers)
}

#[test]
fn a_write_that_is_taken_is_counted() {
    let mut output = Output::new(b"x".to_vec());
    assert_eq!(output.write_answered("ab", Ok::<(), u8>(())), Ok(()));
    assert_eq!(output.write_bytes_answered(b"c", Ok::<(), u8>(())), Ok(()));
    assert_eq!(output.bytes_written(), 3);
    assert_eq!(output.as_slice(), b"xabc");
}

#[test]
fn a_write_that_fails_leaves_nothing() {
    let mut output = Output::new(b"x".to_vec());
    output.write("y");
    assert_eq!(output.write_answered("ab", Err(7)), Err(7));
    assert_eq!(output.write_bytes_answered(b"c", Err(8)), Err(8));
    assert_eq!(output.bytes_written(), 1);
    assert_eq!(output.as_slice(), b"xy");
}

#[test]
fn strings_and_bytes_agree_on_every_answer() {
    for s in ["", "a", "\u{20ac}x"] {
        for answer in [Ok(()), Err("failed")] {
            let mut by_string = Output::new(b"before".to_vec());
            let mut by_bytes = Output::new(b"before".to_vec());
            assert_eq!(by_string.write_answered(s, answer), answer);
            assert_eq!(by_bytes.write_bytes_answered(s.as_bytes(), answer), answer);
            assert_eq!(by_string.bytes_written(), by_bytes.bytes_written());
            assert_eq!(by_string.as_slice(), by_bytes.as_slice());
        }
    }
}

#[test]
fn many_writes_stop_at_the_first_failure() {
    let arr = ["ab", "c", "def", "g"];
    let mut output = Output::new(Vec::new());
    let mut writer = Limited::new(4);
    let result = write_many(&mut output, &mut writer, arr);
    assert_eq!(result, Err("no room for def".to_string()));
    assert_eq!(output.bytes_written(), 3);
    assert_eq!(output.as_slice(), b"abc");
    assert_eq!(writer.handed, ["ab", "c", "def"]);
}

#[test]
fn many_writes_that_are_taken_are_written_in_order() {
    let arr = ["ab", "c", "def", "g"];
    let mut output = Output::new(Vec::new());
    let mut writer = Limited::new(7);
    assert_eq!(write_many(&mut output, &mut writer, arr), Ok(()));
    assert_eq!(output.bytes_written(), 7);
    assert_eq!(output.as_slice(), b"abcdefg");
    assert_eq!(writer.handed, arr);

    let mut output = Output::new(Vec::new());
    assert_eq!(write_many(&mut output, &mut Limited::new(0), []), Ok(()));
    assert_eq!(output.bytes_written(), 0);
}

#[test]
fn many_writes_leave_what_each_leaves() {
    let arr = ["ab", "", "c", "def", "g"];
    for room in 0..8 {
        let mut together = Output::new(Vec::new());
        let result = write_many(&mut together, &mut Limited::new(room), arr);

        let mut one_by_one = Output::new(Vec::new());
        let mut writer = Limited::new(room);
        let mut last = Ok(());
        for s in arr {
            last = one_by_one.write_answered(s, writer.answer(s));
            if last.is_err() {
                break;
            }
        }
        assert_eq!(result, last);
        assert_eq!(together.bytes_written(), one_by_one.bytes_written());
        assert_eq!(together.as_slice(), one_by_one.as_slice());
        assert!(b"abcdefg".starts_with(together.as_slice()));
    }
}

#[test]
fn nothing_is_due_after_a_failure() {
    let arr = ["a", "b", "c"];
    assert_eq!(next_to_write(arr, &Vec::<Result<(), u8>>::new()), Some("a"));
    assert_eq!(next_to_write(arr, &vec![Ok::<(), u8>(()), Ok(())]), Some("c"));
    assert_eq!(next_to_write(arr, &vec![Ok::<(), u8>(()), Ok(()), Ok(())]), None);
    assert_eq!(next_to_write(arr, &vec![Ok(()), Err(1)]), None);
    assert_eq!(next_to_write(arr, &vec![Err(1), Ok(())]), None);
}
