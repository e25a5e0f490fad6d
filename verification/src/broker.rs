//! The decisions of the process that reads a file chunk by chunk and hands
//! the chunks to workers, and of the workers that answer it: where each
//! record starts in the file, how many requests are out, when reading
//! stops, and how a worker labels its answers. The sockets, the threads and
//! the file are the program's; these functions only keep the count.
use vstd::prelude::*;
use crate::text::text;

verus! {

broadcast use vstd::string::group_string_axioms;

/// What the reading side knows while it hands out chunks.
pub struct Broker {
    /// The length of the chunk delimiter plus the three characters `<`,
    /// `/` and `>` that its tags add around a chunk.
    pub delim_key_size: usize,
    /// Where in the file the next search for a chunk starts.
    pub offset: usize,
    /// How many records were handed out.
    pub num_records: usize,
    /// How many workers have asked for work and not been told to stop.
    pub concurrent_requests: i8,
}

impl Broker {
    /// Nothing read yet, for a delimiter of `delimiter_len` bytes.
    pub fn new(delimiter_len: usize) -> (r: Broker)
        requires
            delimiter_len + 3 <= usize::MAX,
        ensures
            r.delim_key_size == delimiter_len + 3,
            r.offset == 0,
            r.num_records == 0,
            r.concurrent_requests == 0,
    {
        Broker { delim_key_size: delimiter_len + 3, offset: 0, num_records: 0, concurrent_requests: 0 }
    }

    /// Counts a chunk found `chunk_offset` bytes after the current offset,
    /// `chunk_len` bytes long. Returns where the record starts in the file
    /// and its number (counted from one); the next search starts after the
    /// chunk and its closing tag.
    pub fn next_record(&mut self, chunk_offset: usize, chunk_len: usize) -> (r: (usize, usize))
        requires
            old(self).offset + chunk_offset + chunk_len + old(self).delim_key_size <= usize::MAX,
            old(self).num_records < usize::MAX,
        ensures
            final(self).num_records == old(self).num_records + 1,
            final(self).offset == old(self).offset + chunk_offset + chunk_len + old(self).delim_key_size,
            final(self).delim_key_size == old(self).delim_key_size,
            final(self).concurrent_requests == old(self).concurrent_requests,
            r.0 == old(self).offset + chunk_offset,
            r.0 + chunk_len + final(self).delim_key_size == final(self).offset,
            r.1 == final(self).num_records,
    {
        self.num_records = self.num_records + 1;
        self.offset = self.offset + chunk_offset + chunk_len + self.delim_key_size;
        let record_offset = self.offset - chunk_len - self.delim_key_size;
        (record_offset, self.num_records)
    }

    /// Takes in the change in the number of working workers that an answer
    /// brought (one more for a worker that asks for work, one less for a
    /// worker that sends its last result). Returns whether a worker must be
    /// started in place of one that stopped.
    pub fn worker_response(&mut self, delta: i8) -> (spawn: bool)
        requires
            i8::MIN <= old(self).concurrent_requests + delta <= i8::MAX,
        ensures
            final(self).concurrent_requests == old(self).concurrent_requests + delta,
            final(self).offset == old(self).offset,
            final(self).num_records == old(self).num_records,
            final(self).delim_key_size == old(self).delim_key_size,
            spawn == (delta == -1),
    {
        self.concurrent_requests = self.concurrent_requests + delta;
        delta == -1
    }

    /// Whether reading stops for the number of records handed out.
    pub fn reading_stops(&self, max_tasks: usize) -> (r: bool)
        ensures
            r == (self.num_records > max_tasks),
    {
        self.num_records > max_tasks
    }

    /// Whether the final wait for the workers goes on: some worker has not
    /// been told to stop and some retries are left.
    pub fn draining(&self, max_retries: i64) -> (r: bool)
        ensures
            r == (self.concurrent_requests != 0 && max_retries != 0),
    {
        self.concurrent_requests != 0 && max_retries != 0
    }

    /// Counts a worker told that the work is over.
    pub fn worker_finished(&mut self)
        requires
            old(self).concurrent_requests > i8::MIN,
        ensures
            final(self).concurrent_requests == old(self).concurrent_requests - 1,
            final(self).offset == old(self).offset,
            final(self).num_records == old(self).num_records,
            final(self).delim_key_size == old(self).delim_key_size,
    {
        self.concurrent_requests = self.concurrent_requests - 1;
    }
}

/// The label of a worker's answer after `total_tasks` tasks: its last
/// result once it has done more than `max_tasks`, a result otherwise.
pub open spec fn reply_label(total_tasks: i32, max_tasks: i32) -> Seq<char> {
    if total_tasks > max_tasks {
        "LASTRESULT"@
    } else {
        "RESULT"@
    }
}

/// How a worker answers after `total_tasks` tasks: the label of its answer,
/// and whether it stops after sending it.
pub fn worker_reply(total_tasks: i32, max_tasks: i32) -> (r: (String, bool))
    ensures
        r.0@ == reply_label(total_tasks, max_tasks),
        r.1 == (total_tasks > max_tasks),
{
    if total_tasks > max_tasks {
        (text("LASTRESULT"), true)
    } else {
        (text("RESULT"), false)
    }
}

/// Whether a work type received by a worker ends its work.
pub fn ends_workload(worktype: &str) -> (r: bool)
    ensures
        r == (worktype@ == "ENDOFWORKLOAD"@),
{
    crate::text::same_text(worktype, "ENDOFWORKLOAD")
}

} // verus!
