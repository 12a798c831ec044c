//! Merging, updating and pruning of kubeconfig-style documents.
//!
//! A document holds three named-entity collections (clusters, contexts,
//! users), an optional active-context pointer and an opaque preferences
//! map.  The library classifies an incoming batch of entities against a
//! destination document (add / update / skip), applies a classification
//! in place, and removes a context together with the cluster and user it
//! references when no other context still needs them.

pub mod classify;
pub mod laws;
pub mod merge;
pub mod model;
pub mod named;
pub mod remove;
