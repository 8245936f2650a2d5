use vstd::prelude::*;

verus! {

/// The two globals the client needs from the compositor.
#[derive(Debug, Clone, Copy, PartialEq, Eq, Structural)]
pub enum Role {
    /// The compositing authority (`wl_compositor`): it creates surfaces.
    Compositor,
    /// The shell authority (`xdg_wm_base`): it gives a surface window semantics.
    Shell,
}

/// The interface name under which the compositor advertises each role.
pub open spec fn interface_of(role: Role) -> Seq<char> {
    match role {
        Role::Compositor => "wl_compositor"@,
        Role::Shell => "xdg_wm_base"@,
    }
}

/// The role an advertised interface fills, if any.
pub open spec fn role_of(interface: Seq<char>) -> Option<Role> {
    if interface == interface_of(Role::Shell) {
        Some(Role::Shell)
    } else if interface == interface_of(Role::Compositor) {
        Some(Role::Compositor)
    } else {
        None
    }
}

/// A global as advertised by the registry: its numeric name and its version.
/// The client binds it at the version advertised.
#[derive(Debug, Clone, Copy, PartialEq, Eq, Structural)]
pub struct GlobalBinding {
    pub name: u32,
    pub version: u32,
}

/// Whether two strings hold the same characters.
pub fn same_text(a: &str, b: &str) -> (r: bool)
    ensures
        r == (a@ == b@),
{
    let n = a.unicode_len();
    if n != b.unicode_len() {
        return false;
    }
    let mut i: usize = 0;
    while i < n
        invariant
            n == a@.len(),
            n == b@.len(),
            0 <= i <= n,
            forall|j: int| 0 <= j < i ==> a@[j] == b@[j],
        decreases n - i,
    {
        if a.get_char(i) != b.get_char(i) {
            return false;
        }
        i = i + 1;
    }
    assert(a@ =~= b@);
    true
}

/// The role that an advertised interface fills: `Shell` for `xdg_wm_base`,
/// `Compositor` for `wl_compositor`, none for every other interface.
pub fn role_of_interface(interface: &str) -> (r: Option<Role>)
    ensures
        r == role_of(interface@),
{
    if same_text(interface, "xdg_wm_base") {
        Some(Role::Shell)
    } else if same_text(interface, "wl_compositor") {
        Some(Role::Compositor)
    } else {
        None
    }
}

} // verus!
