use vstd::prelude::*;
use crate::peek_core::{io_error_for, lemma_convert_io_error, OpenFile, PeekError};
use crate::proc_reader::error::IoFailure;
use crate::proc_reader::fd::{
    fd_entries_of, read_fd, FdEntry, FdLink, count_fds as reader_count_fds,
};
use crate::sort::{stable_sorted, views};

verus! {

/// Open files of a process sorted by descriptor, from what listing
/// `/proc/<pid>/fd` produced.
pub fn collect_files(pid: i32, listing: Result<Vec<FdLink>, IoFailure>) -> (r: Result<Vec<OpenFile>, PeekError>)
    ensures
        match listing {
            Ok(links) => r matches Ok(files) && views(files@) == stable_sorted::<FdEntry>(
                fd_entries_of(links@),
            ),
            Err(e) => r matches Err(err) && io_error_for(err, pid, e),
        },
{
    let ghost l0 = listing;
    let entries = match read_fd(pid, listing) {
        Ok(v) => v,
        Err(e) => {
            proof {
                reveal_strlit("fd");
                if let Err(f) = l0 {
                    lemma_convert_io_error(pid, "fd"@, f, e);
                }
            }
            return Err(PeekError::from(e));
        },
    };
    let ghost ev = views(entries@);
    let mut files: Vec<OpenFile> = Vec::new();
    for entry in it: entries
        invariant
            ev == views(it.seq()),
            views(files@) == ev.take(it.index() as int),
    {
        let f = OpenFile { fd: entry.fd, fd_type: entry.fd_type, description: entry.description };
        let ghost before = views(files@);
        files.push(f);
        assert(views(files@) =~= before.push(f@));
        assert(ev.take(it.index() + 1) =~= ev.take(it.index() as int).push(f@));
    }
    assert(ev.take(ev.len() as int) =~= ev);
    Ok(files)
}

/// Number of open descriptors, from how many entries listing `/proc/<pid>/fd` gave.
pub fn count_fds(pid: i32, listing: Result<usize, IoFailure>) -> (r: Result<usize, PeekError>)
    ensures
        match listing {
            Ok(n) => r matches Ok(c) && c == n,
            Err(e) => r matches Err(err) && io_error_for(err, pid, e),
        },
{
    let ghost l0 = listing;
    match reader_count_fds(pid, listing) {
        Ok(n) => Ok(n),
        Err(e) => {
            proof {
                reveal_strlit("fd");
                if let Err(f) = l0 {
                    lemma_convert_io_error(pid, "fd"@, f, e);
                }
            }
            Err(PeekError::from(e))
        },
    }
}

} // verus!
