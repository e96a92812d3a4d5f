//! Proposed maintenance tasks: decisions this crate carries deliberately
//! and should revisit, each with where it shows and what done looks like.
//!
//! # 1) Wire up or drop the reserved error variants
//!
//! `InvalidChunkHash` and `FileTooLarge` are documented as reserved and
//! nothing constructs them; carrying dead variants invites drift between
//! the taxonomy and the behaviour. Observed in `errors`. Done when either a
//! validation path produces each variant and a test exercises it, or the
//! variants are removed and callers migrated.
//!
//! # 2) Atomic reassembly write in the surrounding binary
//!
//! A failed write of the reassembled payload leaves a possibly truncated
//! destination file behind; the session stays retryable, but the partial
//! file lingers. Observed in the binary around the library. Done when an
//! interrupted write leaves no partial destination file and a retry of
//! finalization still succeeds from the intact session.
//!
//! # 3) Reclamation policy for abandoned sessions
//!
//! A session that is never completed or cancelled holds its chunk payloads
//! for the life of the process; today that leak is deliberate and tested,
//! but it should stay a conscious choice. Observed in `registry`. Done when
//! the crate documentation records the decision, or an eviction hook exists
//! with tests showing in-progress work is never evicted by surprise.
//!
//! # 4) Collision handling for destination filenames
//!
//! The storage directory is flat and keyed by the caller-declared filename
//! alone, so two completed uploads declaring the same name silently
//! overwrite each other. Observed in the binary around the library. Done
//! when the decision is documented, or a namespacing scheme exists with
//! tests.
