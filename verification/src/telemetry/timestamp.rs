//! How a point in time is written into a serialized report.

use vstd::prelude::*;

verus! {

/// A point in time: seconds since the epoch and nanoseconds into that second.
#[derive(Debug, Clone, Copy)]
pub struct Timestamp {
    pub seconds: i64,
    pub nanos: i32,
}

/// A number in a record.
#[derive(Debug, Clone, Copy, PartialEq, Eq, Structural)]
pub enum Number {
    I64(i64),
    I32(i32),
}

/// A named number of a record.
#[derive(Debug)]
pub struct Member {
    pub name: &'static str,
    pub value: Number,
}

/// A named record of numbers, in the order in which they are written.
#[derive(Debug)]
pub struct Record {
    pub name: &'static str,
    pub members: Vec<Member>,
}

/// The record that a point in time is written as; nothing where there is none.
pub fn timestamp_record(timestamp: &Option<Timestamp>) -> (record: Option<Record>)
    ensures
        match timestamp {
            Some(timestamp) => {
                &&& record matches Some(record)
                &&& record.name@ == "Timestamp"@
                &&& record.members@.len() == 2
                &&& record.members@[0].name@ == "seconds"@
                &&& record.members@[0].value == Number::I64(timestamp.seconds)
                &&& record.members@[1].name@ == "nanos"@
                &&& record.members@[1].value == Number::I32(timestamp.nanos)
            },
            None => record is None,
        },
{
    match timestamp {
        Some(timestamp) => {
            let mut members: Vec<Member> = Vec::new();
            members.push(Member { name: "seconds", value: Number::I64(timestamp.seconds) });
            members.push(Member { name: "nanos", value: Number::I32(timestamp.nanos) });
            Some(Record { name: "Timestamp", members })
        },
        None => None,
    }
}

} // verus!
