//! Builds a runtime instance with the preset command sets registered.

use vstd::prelude::*;
use crate::app::App;
use crate::command::{CommandHandler, CommandManager};
use crate::resource::ResourceValue;

verus! {

/// The registry every fresh runtime instance starts with.
pub open spec fn preset_commands() -> Map<(Seq<char>, Seq<char>), CommandHandler> {
    Map::<(Seq<char>, Seq<char>), CommandHandler>::empty().insert(
        ("hol.archiver"@, "open_zip"@),
        CommandHandler::OpenZip,
    ).insert(("hol.archiver"@, "query_dir"@), CommandHandler::QueryDir).insert(
        ("hol.archiver"@, "load_file"@),
        CommandHandler::LoadFile,
    ).insert(("hol.blob"@, "load_blob_data"@), CommandHandler::LoadBlobData)
}

/// A fresh runtime instance: an empty resource table and the preset
/// archive and blob command sets.
pub fn create_app() -> (app: App)
    ensures
        app.wf(),
        app.table() == Map::<u64, ResourceValue>::empty(),
        app.next_id() == 0,
        app.commands() == preset_commands(),
{
    let mut cmd_mgr = CommandManager::new();
    crate::archiver::setup_command(&mut cmd_mgr);
    crate::blob::setup_command(&mut cmd_mgr);
    App::new(cmd_mgr)
}

} // verus!
