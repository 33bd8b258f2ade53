//! Method names of the protocol messages that a server's lifecycle depends on.

use vstd::prelude::*;

verus! {

/// The method name of the `initialize` request.
pub open spec fn initialize_name() -> Seq<char> {
    "initialize"@
}

/// The method name of the `shutdown` request.
pub open spec fn shutdown_name() -> Seq<char> {
    "shutdown"@
}

/// The method name of the `initialized` notification.
pub open spec fn initialized_name() -> Seq<char> {
    "initialized"@
}

/// The method name of the `exit` notification.
pub open spec fn exit_name() -> Seq<char> {
    "exit"@
}

/// Reads `lsp_types::request::Initialize::METHOD`. The contract claims that
/// the constant spells `initialize`.
#[verifier::external_body]
pub(crate) fn initialize_method() -> (name: &'static str)
    ensures
        name@ == initialize_name(),
{
    <lsp_types::request::Initialize as lsp_types::request::Request>::METHOD
}

/// Reads `lsp_types::request::Shutdown::METHOD`. The contract claims that the
/// constant spells `shutdown`.
#[verifier::external_body]
pub(crate) fn shutdown_method() -> (name: &'static str)
    ensures
        name@ == shutdown_name(),
{
    <lsp_types::request::Shutdown as lsp_types::request::Request>::METHOD
}

/// Reads `lsp_types::notification::Initialized::METHOD`. The contract claims
/// that the constant spells `initialized`.
#[verifier::external_body]
pub(crate) fn initialized_method() -> (name: &'static str)
    ensures
        name@ == initialized_name(),
{
    <lsp_types::notification::Initialized as lsp_types::notification::Notification>::METHOD
}

/// Reads `lsp_types::notification::Exit::METHOD`. The contract claims that the
/// constant spells `exit`.
#[verifier::external_body]
pub(crate) fn exit_method() -> (name: &'static str)
    ensures
        name@ == exit_name(),
{
    <lsp_types::notification::Exit as lsp_types::notification::Notification>::METHOD
}

/// The four names are pairwise different.
pub proof fn lemma_names_distinct()
    ensures
        initialize_name() != shutdown_name(),
        initialize_name() != initialized_name(),
        initialize_name() != exit_name(),
        shutdown_name() != initialized_name(),
        shutdown_name() != exit_name(),
        initialized_name() != exit_name(),
{
    reveal_strlit("initialize");
    reveal_strlit("shutdown");
    reveal_strlit("initialized");
    reveal_strlit("exit");
    assert(shutdown_name().len() == 8);
    assert(initialized_name().len() == 11);
    assert(exit_name().len() == 4);
}

} // verus!
