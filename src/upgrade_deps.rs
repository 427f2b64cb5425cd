use vstd::prelude::*;

verus! {

/// Upgrade the dependencies on `swc`'s plugin crates.
#[derive(Debug, Clone, Copy, PartialEq, Eq)]
pub struct UpgradeDepsCommand {
    /// Upgrade them in every crate of the current workspace.
    pub workspace: bool,
}

/// One dependency to upgrade.
#[derive(Debug, Clone, PartialEq, Eq)]
pub struct UpgradeRequest {
    pub crate_name: String,
    pub workspace: bool,
}

/// The crates whose dependents are upgraded, in order.
pub open spec fn upgraded_crates() -> Seq<Seq<char>> {
    seq![
        seq!['s', 'w', 'c', '_', 'a', 't', 'o', 'm', 's'],
        seq!['s', 'w', 'c', '_', 'c', 'o', 'm', 'm', 'o', 'n'],
        seq!['s', 'w', 'c', '_', 'p', 'l', 'u', 'g', 'i', 'n'],
    ]
}

impl UpgradeDepsCommand {
    /// The upgrades to perform, in order: `swc_atoms`, `swc_common` and
    /// `swc_plugin`, each over the workspace when the flag asks for it.
    pub fn run(self) -> (r: Vec<UpgradeRequest>)
        ensures
            r@.len() == 3,
            forall|i: int|
                0 <= i < 3 ==> (#[trigger] r@[i]).crate_name@ == upgraded_crates()[i]
                    && r@[i].workspace == self.workspace,
    {
        proof {
            reveal_strlit("swc_atoms");
            reveal_strlit("swc_common");
            reveal_strlit("swc_plugin");
        }
        let mut r: Vec<UpgradeRequest> = Vec::new();
        r.push(UpgradeRequest { crate_name: String::from_str("swc_atoms"), workspace: self.workspace });
        r.push(UpgradeRequest { crate_name: String::from_str("swc_common"), workspace: self.workspace });
        r.push(UpgradeRequest { crate_name: String::from_str("swc_plugin"), workspace: self.workspace });
        proof {
            assert(r@[0].crate_name@ =~= upgraded_crates()[0]);
            assert(r@[1].crate_name@ =~= upgraded_crates()[1]);
            assert(r@[2].crate_name@ =~= upgraded_crates()[2]);
        }
        r
    }
}

} // verus!
