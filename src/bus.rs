//! The compositor event bus: where its socket lives and what the read loop
//! does with each outcome of a read.
use vstd::prelude::*;
use vstd::string::StringExecFns;

verus! {

/// Why the bus could not find its socket.
#[derive(Clone, Copy, Debug, PartialEq, Eq, Structural)]
pub enum BusError {
    /// The runtime directory is not set.
    MissingRuntimeDir,
    /// The compositor instance signature is not set.
    MissingSignature,
}

/// The path of the event socket of compositor instance `sig` under the
/// runtime directory `rt`.
pub open spec fn socket_path_of(rt: Seq<char>, sig: Seq<char>) -> Seq<char> {
    rt + "/hypr/"@ + sig + "/.socket2.sock"@
}

/// The event socket's path, from the runtime directory and the instance
/// signature that the environment provides; either missing is a
/// configuration error.
pub fn socket_path(runtime_dir: &Option<String>, signature: &Option<String>) -> (r: Result<
    String,
    BusError,
>)
    ensures
        runtime_dir is None ==> r == Err::<String, BusError>(BusError::MissingRuntimeDir),
        runtime_dir is Some && signature is None ==> r == Err::<String, BusError>(
            BusError::MissingSignature,
        ),
        match (runtime_dir, signature) {
            (Some(rt), Some(sig)) => r matches Ok(p) && p@ == socket_path_of(rt@, sig@),
            _ => true,
        },
{
    match runtime_dir {
        None => Err(BusError::MissingRuntimeDir),
        Some(rt) => match signature {
            None => Err(BusError::MissingSignature),
            Some(sig) => {
                let mut p = String::from_str(rt.as_str());
                p.append("/hypr/");
                p.append(sig.as_str());
                p.append("/.socket2.sock");
                proof {
                    assert(socket_path_of(rt@, sig@) =~= ((rt@ + "/hypr/"@) + sig@) + "/.socket2.sock"@);
                }
                Ok(p)
            },
        },
    }
}

/// What one read of the socket gave.
#[derive(Clone, Copy, Debug, PartialEq, Eq, Structural)]
pub enum ReadOutcome {
    /// Some bytes arrived.
    Data,
    /// The peer closed the stream.
    EndOfStream,
    /// Nothing is ready yet on the non-blocking socket.
    WouldBlock,
    /// Any other I/O error.
    Failed,
}

/// What the read loop does next.
#[derive(Clone, Copy, Debug, PartialEq, Eq, Structural)]
pub enum ReadAction {
    /// Decode the bytes and publish their events, then read again.
    Publish,
    /// Wait for readability and read again.
    Poll,
    /// End the loop normally.
    Stop,
    /// End the loop and report the error.
    Fail,
}

/// The read loop's decision for one outcome: data is published, a
/// would-block read polls again, the end of the stream stops the loop, and
/// any other error ends it with that error.
pub fn next_action(outcome: ReadOutcome) -> (r: ReadAction)
    ensures
        outcome == ReadOutcome::Data ==> r == ReadAction::Publish,
        outcome == ReadOutcome::WouldBlock ==> r == ReadAction::Poll,
        outcome == ReadOutcome::EndOfStream ==> r == ReadAction::Stop,
        outcome == ReadOutcome::Failed ==> r == ReadAction::Fail,
{
    match outcome {
        ReadOutcome::Data => ReadAction::Publish,
        ReadOutcome::WouldBlock => ReadAction::Poll,
        ReadOutcome::EndOfStream => ReadAction::Stop,
        ReadOutcome::Failed => ReadAction::Fail,
    }
}

} // verus!
