# time_formatting

Formatting of date, time, offset and timestamp components, and of dates, times and UTC offsets in
ISO 8601. Every function that writes has a contract that says byte for byte what it writes, and is
proved against it by Verus. Seven short functions that only call into the `deranged` and `num-conv`
crates have contracts that Verus takes on trust; each is marked `#[verifier::external_body]`, and
its doc comment says what is claimed of the call.

- `src/text.rs`: what numbers look like when they are written out, and laws about them
- `src/num_fmt.rs`: writing numbers out
- `src/ranged.rs`: integers in a range, with ranges tested by the `deranged` crate
- `src/modifier.rs`, `src/calendar.rs`: how components are written, and what months and weekdays are
- `src/output.rs`: the output, which counts the bytes written to it
- `src/answers.rs`: what is written and counted where a writer may fail
- `src/names.rs`, `src/components.rs`, `src/subsecond.rs`: one function per component
- `src/float.rs`: numbers with a decimal fraction
- `src/iso8601.rs`: ISO 8601
- `src/laws.rs`, `src/iso8601_laws.rs`: laws about what is written
- `app/`: writing to anything that implements `std::io::Write`, and the floating point arithmetic
