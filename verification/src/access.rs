//! Permissions and the signed-in session that route policies check them against.

use vstd::prelude::*;

use crate::text::str_eq;

verus! {

/// What a user may do.
#[derive(Clone, Copy, Debug, PartialEq, Eq, Structural)]
pub enum Permission {
    AccessCatalog,
    LikeContent,
    OwnPlaylists,
    EditCatalog,
    ManagePermissions,
    ServerAdmin,
    ViewAnalytics,
    RequestContent,
    ReportBug,
    DownloadManagerAdmin,
}

impl Permission {
    pub open spec fn name_spec(self) -> Seq<char> {
        match self {
            Permission::AccessCatalog => "AccessCatalog"@,
            Permission::LikeContent => "LikeContent"@,
            Permission::OwnPlaylists => "OwnPlaylists"@,
            Permission::EditCatalog => "EditCatalog"@,
            Permission::ManagePermissions => "ManagePermissions"@,
            Permission::ServerAdmin => "ServerAdmin"@,
            Permission::ViewAnalytics => "ViewAnalytics"@,
            Permission::RequestContent => "RequestContent"@,
            Permission::ReportBug => "ReportBug"@,
            Permission::DownloadManagerAdmin => "DownloadManagerAdmin"@,
        }
    }

    /// The permission's name, as the API spells it.
    pub fn name(&self) -> (r: &'static str)
        ensures
            r@ == self.name_spec(),
    {
        match self {
            Permission::AccessCatalog => "AccessCatalog",
            Permission::LikeContent => "LikeContent",
            Permission::OwnPlaylists => "OwnPlaylists",
            Permission::EditCatalog => "EditCatalog",
            Permission::ManagePermissions => "ManagePermissions",
            Permission::ServerAdmin => "ServerAdmin",
            Permission::ViewAnalytics => "ViewAnalytics",
            Permission::RequestContent => "RequestContent",
            Permission::ReportBug => "ReportBug",
            Permission::DownloadManagerAdmin => "DownloadManagerAdmin",
        }
    }
}

/// The permissions an administrator may grant as an extra permission, by name; bug
/// reporting is not among them.
pub open spec fn grantable_permission(name: Seq<char>) -> Option<Permission> {
    if name == "AccessCatalog"@ {
        Some(Permission::AccessCatalog)
    } else if name == "LikeContent"@ {
        Some(Permission::LikeContent)
    } else if name == "OwnPlaylists"@ {
        Some(Permission::OwnPlaylists)
    } else if name == "EditCatalog"@ {
        Some(Permission::EditCatalog)
    } else if name == "ManagePermissions"@ {
        Some(Permission::ManagePermissions)
    } else if name == "ServerAdmin"@ {
        Some(Permission::ServerAdmin)
    } else if name == "ViewAnalytics"@ {
        Some(Permission::ViewAnalytics)
    } else if name == "RequestContent"@ {
        Some(Permission::RequestContent)
    } else if name == "DownloadManagerAdmin"@ {
        Some(Permission::DownloadManagerAdmin)
    } else {
        None
    }
}

/// The grantable permission called `name`; `None` (answered 400) for any other name.
pub fn parse_grantable_permission(name: &str) -> (r: Option<Permission>)
    ensures
        r == grantable_permission(name@),
{
    if str_eq(name, "AccessCatalog") {
        Some(Permission::AccessCatalog)
    } else if str_eq(name, "LikeContent") {
        Some(Permission::LikeContent)
    } else if str_eq(name, "OwnPlaylists") {
        Some(Permission::OwnPlaylists)
    } else if str_eq(name, "EditCatalog") {
        Some(Permission::EditCatalog)
    } else if str_eq(name, "ManagePermissions") {
        Some(Permission::ManagePermissions)
    } else if str_eq(name, "ServerAdmin") {
        Some(Permission::ServerAdmin)
    } else if str_eq(name, "ViewAnalytics") {
        Some(Permission::ViewAnalytics)
    } else if str_eq(name, "RequestContent") {
        Some(Permission::RequestContent)
    } else if str_eq(name, "DownloadManagerAdmin") {
        Some(Permission::DownloadManagerAdmin)
    } else {
        None
    }
}

/// Reading back the name of a permission gives the permission, for every permission but
/// bug reporting, which cannot be granted by name.
pub proof fn lemma_permission_names_round_trip(p: Permission)
    ensures
        p != Permission::ReportBug ==> grantable_permission(p.name_spec()) == Some(p),
        p == Permission::ReportBug ==> grantable_permission(p.name_spec()) is None,
{
    reveal_strlit("AccessCatalog");
    reveal_strlit("LikeContent");
    reveal_strlit("OwnPlaylists");
    reveal_strlit("EditCatalog");
    reveal_strlit("ManagePermissions");
    reveal_strlit("ServerAdmin");
    reveal_strlit("ViewAnalytics");
    reveal_strlit("RequestContent");
    reveal_strlit("ReportBug");
    reveal_strlit("DownloadManagerAdmin");
    assert("AccessCatalog"@.len() == 13 && "AccessCatalog"@[0] == 'A');
    assert("LikeContent"@.len() == 11 && "LikeContent"@[0] == 'L');
    assert("OwnPlaylists"@.len() == 12 && "OwnPlaylists"@[0] == 'O');
    assert("EditCatalog"@.len() == 11 && "EditCatalog"@[0] == 'E');
    assert("ManagePermissions"@.len() == 17 && "ManagePermissions"@[0] == 'M');
    assert("ServerAdmin"@.len() == 11 && "ServerAdmin"@[0] == 'S');
    assert("ViewAnalytics"@.len() == 13 && "ViewAnalytics"@[0] == 'V');
    assert("RequestContent"@.len() == 14 && "RequestContent"@[0] == 'R');
    assert("ReportBug"@.len() == 9 && "ReportBug"@[0] == 'R');
    assert("DownloadManagerAdmin"@.len() == 20 && "DownloadManagerAdmin"@[0] == 'D');
}

/// A verified session: whose it is and the permissions loaded with it.
#[derive(Clone, Debug)]
pub struct Session {
    pub user_id: usize,
    pub token: String,
    pub permissions: Vec<Permission>,
    pub device_id: Option<usize>,
    pub device_type: Option<String>,
}

impl Session {
    pub open spec fn has_permission_spec(&self, p: Permission) -> bool {
        self.permissions@.contains(p)
    }

    /// Whether the session holds `p`.
    pub fn has_permission(&self, p: Permission) -> (r: bool)
        ensures
            r == self.has_permission_spec(p),
    {
        let mut i: usize = 0;
        while i < self.permissions.len()
            invariant
                i <= self.permissions@.len(),
                forall|k: int| 0 <= k < i ==> self.permissions@[k] != p,
            decreases self.permissions@.len() - i,
        {
            if self.permissions[i] == p {
                return true;
            }
            i = i + 1;
        }
        false
    }
}

} // verus!
