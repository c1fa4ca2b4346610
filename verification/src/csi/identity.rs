//! The identity service.

use vstd::prelude::*;
use vstd::string::*;

use crate::ops::commands::{CommandLine, CommandView};
use crate::table::Table;

verus! {

broadcast use vstd::string::group_string_axioms;

/// The identity service of a node.
#[derive(Debug)]
pub struct CsiIdentity {
    node_id: String,
}

impl View for CsiIdentity {
    type V = Seq<char>;

    /// The identifier of the node.
    closed spec fn view(&self) -> Seq<char> {
        self.node_id@
    }
}

/// What the plugin says of itself.
pub struct PluginInfo {
    pub name: String,
    pub vendor_version: String,
    pub manifest: Table<String>,
}

/// What the plugin can do.
#[derive(Debug, Clone, Copy, PartialEq, Eq, Structural)]
pub enum PluginCapability {
    ControllerService,
    VolumeAccessibilityConstraints,
}

impl CsiIdentity {
    /// The identity service of a node.
    pub fn new(node_id: String) -> (r: CsiIdentity)
        ensures
            r@ == node_id@,
    {
        CsiIdentity { node_id }
    }

    /// What the plugin says of itself, at a version.
    pub fn get_plugin_info(&self, version: &str) -> (r: PluginInfo)
        ensures
            r.name@ == "btrfs-csi"@,
            r.vendor_version@ == version@,
            r.manifest.wf(),
            r.manifest@ == Map::empty().insert("node_id"@, self@).insert("driver"@, "btrfs"@),
    {
        let mut manifest: Table<String> = Table::new();
        manifest.insert("node_id".to_owned(), self.node_id.clone());
        manifest.insert("driver".to_owned(), "btrfs".to_owned());
        PluginInfo {
            name: "btrfs-csi".to_owned(),
            vendor_version: version.to_owned(),
            manifest,
        }
    }

    /// What the plugin can do.
    pub fn get_plugin_capabilities(&self) -> (r: Vec<PluginCapability>)
        ensures
            r@ == seq![
                PluginCapability::ControllerService,
                PluginCapability::VolumeAccessibilityConstraints,
            ],
    {
        let mut r: Vec<PluginCapability> = Vec::new();
        r.push(PluginCapability::ControllerService);
        r.push(PluginCapability::VolumeAccessibilityConstraints);
        r
    }

    /// The command whose success shows that the plugin is ready.
    pub fn probe(&self) -> (r: CommandLine)
        ensures
            r@ == (CommandView { program: "btrfs"@, args: seq!["version"@] }),
    {
        let r = CommandLine::new("btrfs").arg("version");
        assert(r@ =~= (CommandView { program: "btrfs"@, args: seq!["version"@] }));
        r
    }
}

} // verus!
