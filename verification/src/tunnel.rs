use vstd::prelude::*;

verus! {

/// How many bytes a tunnel carried in each direction.
#[derive(Debug, Clone, Copy, PartialEq, Eq, Structural)]
pub struct TunnelStats {
    pub client_to_dest: u64,
    pub dest_to_client: u64,
}

/// What a relay comes to, given what its two copies came to. The relay is
/// over when both copies are. It succeeds where both did, and then reports
/// the bytes that each carried; else it fails with the error of the copy that
/// failed, and with that of the copy from the client where both did.
pub open spec fn relay_outcome<E>(
    client_to_dest: Result<u64, E>,
    dest_to_client: Result<u64, E>,
) -> Result<TunnelStats, E> {
    match (client_to_dest, dest_to_client) {
        (Ok(sent), Ok(received)) => Ok(
            TunnelStats { client_to_dest: sent, dest_to_client: received },
        ),
        (Err(e), _) => Err(e),
        (Ok(_), Err(e)) => Err(e),
    }
}

/// Joins the results of the two copies of a relay.
pub fn relay_result<E>(client_to_dest: Result<u64, E>, dest_to_client: Result<u64, E>) -> (stats:
    Result<TunnelStats, E>)
    ensures
        stats == relay_outcome(client_to_dest, dest_to_client),
{
    match client_to_dest {
        Err(e) => Err(e),
        Ok(sent) => match dest_to_client {
            Err(e) => Err(e),
            Ok(received) => Ok(TunnelStats { client_to_dest: sent, dest_to_client: received }),
        },
    }
}

} // verus!
