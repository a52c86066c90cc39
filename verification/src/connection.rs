//! A client connection to a Wordbase server over a WebSocket stream.

use vstd::prelude::*;

verus! {

/// A client connection over the stream `S`, once a handshake is done.
#[derive(Debug, Clone, Copy)]
pub struct Connection<S>(pub S);

impl<S> Connection<S> {
    /// A connection over a stream whose handshake has already been done.
    pub fn assume_handshaked(stream: S) -> (r: Self)
        ensures
            r.0 == stream,
    {
        Connection(stream)
    }

    /// The underlying stream.
    pub fn inner(&self) -> (r: &S)
        ensures
            *r == self.0,
    {
        &self.0
    }

    /// The underlying stream, to change it.
    pub fn inner_mut(&mut self) -> (r: &mut S)
        ensures
            *r == old(self).0,
            final(self).0 == *final(r),
    {
        &mut self.0
    }

    /// Takes the underlying stream.
    pub fn into_inner(self) -> (r: S)
        ensures
            r == self.0,
    {
        self.0
    }
}

/// Why a request on a connection failed: the exchange itself failed (the
/// request could not be sent, or no response could be read), or the server
/// answered with another kind of response than the request asks for.
#[derive(Debug, Clone, PartialEq, Eq)]
pub enum ClientError<E> {
    Exchange(E),
    InvalidResponseKind,
}

/// The result of a request, from the outcome of its exchange: `Some` of the
/// payload when the server answered with the kind of response the request
/// asks for (a pong for a ping, a lookup result for a lookup), `None` when it
/// answered with another kind.
pub fn reply_of<T, E>(exchange: Result<Option<T>, E>) -> (r: Result<T, ClientError<E>>)
    ensures
        match exchange {
            Ok(Some(t)) => r == Ok::<T, ClientError<E>>(t),
            Ok(None) => r == Err::<T, ClientError<E>>(ClientError::InvalidResponseKind),
            Err(e) => r == Err::<T, ClientError<E>>(ClientError::Exchange(e)),
        },
{
    match exchange {
        Ok(Some(t)) => Ok(t),
        Ok(None) => Err(ClientError::InvalidResponseKind),
        Err(e) => Err(ClientError::Exchange(e)),
    }
}

/// The outcome of a handshake over `stream`, from the outcome of its ping
/// exchange (see [`reply_of`]): a connection when the server answered with a
/// pong, and otherwise the error together with the stream, given back.
pub fn handshake_outcome<S, P, E>(stream: S, ping: Result<Option<P>, E>) -> (r: Result<
    Connection<S>,
    (ClientError<E>, S),
>)
    ensures
        match ping {
            Ok(Some(_)) => r == Ok::<Connection<S>, (ClientError<E>, S)>(Connection(stream)),
            Ok(None) => r == Err::<Connection<S>, (ClientError<E>, S)>(
                (ClientError::InvalidResponseKind, stream),
            ),
            Err(e) => r == Err::<Connection<S>, (ClientError<E>, S)>((ClientError::Exchange(e), stream)),
        },
{
    match ping {
        Ok(Some(_)) => Ok(Connection(stream)),
        Ok(None) => Err((ClientError::InvalidResponseKind, stream)),
        Err(e) => Err((ClientError::Exchange(e), stream)),
    }
}

} // verus!
