//! Who may run commands.
use vstd::prelude::*;

verus! {

/// A user who may run commands.
#[derive(Debug)]
pub struct AuthUser {
    pub name: String,
    pub id: String,
}

/// What the plugin is configured with: the users who may run commands.
#[derive(Debug)]
pub struct Config {
    pub authorized: Vec<AuthUser>,
}

/// Whether the user may run commands.
#[derive(Clone, Copy, Debug, PartialEq, Eq, Structural)]
pub enum Access {
    /// No configuration has been received yet.
    Unconfigured,
    /// The user is not among the authorized.
    Denied,
    /// The user is among the authorized.
    Granted,
}

/// The lowercase form of a text, as `str::to_lowercase` gives it.
pub uninterp spec fn lowercase_of(text: Seq<char>) -> Seq<char>;

/// Calls `str::to_lowercase`, which maps each character to its Unicode
/// lowercase form. The result is a function of the text alone; no more is
/// claimed of it.
#[verifier::external_body]
fn lowercase(text: &String) -> (lower: String)
    ensures
        lower@ == lowercase_of(text@),
{
    text.to_lowercase()
}

/// Whether some authorized user has the name `user`, letter case aside.
pub open spec fn is_listed(authorized: Seq<AuthUser>, user: Seq<char>) -> bool {
    exists|i: int|
        0 <= i < authorized.len() && lowercase_of(#[trigger] authorized[i].name@) == lowercase_of(
            user,
        )
}

/// The access of `user` under `config`.
pub open spec fn access_under(config: Option<Config>, user: Seq<char>) -> Access {
    match config {
        None => Access::Unconfigured,
        Some(c) => if is_listed(c.authorized@, user) {
            Access::Granted
        } else {
            Access::Denied
        },
    }
}

/// Whether `name` is among `names`, letter for letter.
pub fn contains_name(names: &Vec<String>, name: &String) -> (found: bool)
    ensures
        found == exists|i: int| 0 <= i < names.len() && (#[trigger] names[i])@ == name@,
{
    let mut i: usize = 0;
    while i < names.len()
        invariant
            i <= names.len(),
            forall|j: int| 0 <= j < i ==> (#[trigger] names[j])@ != name@,
        decreases names.len() - i,
    {
        if names[i] == *name {
            return true;
        }
        i = i + 1;
    }
    false
}

/// Whether `user` is among the authorized users of `config`. Names are
/// compared in lowercase.
pub fn is_authorized(config: &Config, user: &String) -> (listed: bool)
    ensures
        listed == is_listed(config.authorized@, user@),
{
    let wanted = lowercase(user);
    let mut lowered: Vec<String> = Vec::new();
    let mut i: usize = 0;
    while i < config.authorized.len()
        invariant
            i <= config.authorized.len(),
            lowered.len() == i,
            forall|j: int|
                0 <= j < i ==> (#[trigger] lowered[j])@ == lowercase_of(
                    config.authorized[j].name@,
                ),
        decreases config.authorized.len() - i,
    {
        lowered.push(lowercase(&config.authorized[i].name));
        i = i + 1;
    }
    let listed = contains_name(&lowered, &wanted);
    proof {
        if listed {
            let at = choose|at: int|
                0 <= at < lowered.len() && (#[trigger] lowered[at])@ == wanted@;
            assert(lowercase_of(config.authorized[at].name@) == lowercase_of(user@));
        } else {
            assert forall|j: int| 0 <= j < config.authorized.len() implies lowercase_of(
                #[trigger] config.authorized[j].name@,
            ) != lowercase_of(user@) by {
                assert(lowered[j]@ != wanted@);
            }
        }
    }
    listed
}

/// The access of `user`: unconfigured without a configuration, otherwise
/// granted or denied by the list.
pub fn access_of(config: Option<&Config>, user: &String) -> (access: Access)
    ensures
        access == access_under(
            match config {
                Some(c) => Some(*c),
                None => None,
            },
            user@,
        ),
{
    match config {
        None => Access::Unconfigured,
        Some(c) => if is_authorized(c, user) {
            Access::Granted
        } else {
            Access::Denied
        },
    }
}

} // verus!
