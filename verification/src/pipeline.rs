//! The whole decode pipeline in one pass: split the byte stream into
//! access units, feed each to the decoder session, and drain the buffered
//! pictures once the stream ends.

use vstd::prelude::*;

use crate::chunked_reader::split_step;
use crate::chunked_reader::ByteSource;
use crate::chunked_reader::ChunkedError;
use crate::chunked_reader::ChunkedReader;
use crate::frame::AccessUnit;
use crate::session::DecoderSession;
use crate::session::DecodingEngine;
use crate::session::HostPipeline;
use crate::session::SessionError;
use crate::split_laws::lemma_split_step_chunk_len;
use crate::split_laws::split_all;

verus! {

/// A failure of the decode pipeline: either the splitter or the session
/// gave up.
#[derive(Debug, Clone, Copy, PartialEq, Eq, Structural)]
pub enum PipelineError {
    /// The byte stream could not be split into access units.
    Split(ChunkedError),
    /// The decoder session failed.
    Decode(SessionError),
}

/// Decode one whole byte stream: read access units from the splitter and
/// feed each to the session, then drain the engine's buffered pictures.
/// Decoded pictures are delivered through the host's callbacks along the
/// way.
///
/// On success the stream was consumed to its end and the engine was
/// drained to end of stream.  A stream that splits cleanly
/// (`split_all` succeeds), read from a source that cannot fail, never
/// yields a split error.
pub fn decode_stream<S: ByteSource, E: DecodingEngine, H: HostPipeline>(
    reader: &mut ChunkedReader<S>,
    session: &mut DecoderSession<E>,
    host: &mut H,
) -> (r: Result<(), PipelineError>)
    requires
        old(reader).wf(),
        old(session).is_active(),
    ensures
        final(reader).wf(),
        final(session).is_active(),
        r is Ok ==> final(reader).unread().len() == 0 && final(session).at_eof(),
        split_all(old(reader).unread(), old(reader).spec_max()) is Some && !old(
            reader,
        ).source_can_fail() ==> !(r matches Err(PipelineError::Split(_))),
    {
        let ghost splits_cleanly: bool = split_all(reader.unread(), reader.spec_max()) is Some
            && !reader.source_can_fail();
        loop
            invariant
                reader.wf(),
                session.is_active(),
                splits_cleanly == (split_all(old(reader).unread(), old(reader).spec_max())
                    is Some && !old(reader).source_can_fail()),
                splits_cleanly ==> split_all(reader.unread(), reader.spec_max()) is Some
                    && !reader.source_can_fail(),
            ensures
                reader.wf(),
                session.is_active(),
                reader.unread().len() == 0,
            decreases reader.unread().len(),
        {
            let ghost unread0 = reader.unread();
            let chunk = match reader.next_chunk() {
                Ok(Some(chunk)) => chunk,
                Ok(None) => {
                    break ;
                },
                Err(e) => {
                    proof {
                        if splits_cleanly {
                            // A cleanly splittable stream from a source
                            // that cannot fail admits no split error:
                            // `next_chunk` then errs exactly when
                            // `split_step` errs, which `split_all`'s
                            // success rules out.
                            assert(split_step(unread0, reader.spec_max()) == Err::<
                                Option<Seq<u8>>,
                                ChunkedError,
                            >(e));
                            assert(false);
                        }
                    }
                    return Err(PipelineError::Split(e));
                },
            };
            proof {
                lemma_split_step_chunk_len(unread0, reader.spec_max(), chunk@);
                if splits_cleanly {
                    assert(split_all(reader.unread(), reader.spec_max()) is Some);
                }
            }
            match session.decode(host, &AccessUnit::new(chunk)) {
                Ok(()) => (),
                Err(e) => {
                    return Err(PipelineError::Decode(e));
                },
            }
        }
        match session.forward_pending_frames(host) {
            Ok(()) => Ok(()),
            Err(e) => Err(PipelineError::Decode(e)),
        }
    }

} // verus!
