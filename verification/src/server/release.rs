//! Releases, and which of two is newer.

use vstd::prelude::*;

verus! {

/// How one release stands to another.
#[derive(Debug, Clone, Copy, PartialEq, Eq, Structural)]
pub enum Order {
    Less,
    Equal,
    Greater,
}

impl Order {
    /// How the other release stands to this one.
    pub open spec fn reversed(self) -> Order {
        match self {
            Order::Less => Order::Greater,
            Order::Equal => Order::Equal,
            Order::Greater => Order::Less,
        }
    }
}

/// A version as `semver` reads it.
#[verifier::external_type_specification]
#[verifier::external_body]
pub struct ExVersion(semver::Version);

/// The version `semver` reads a text as, if it is one.
pub uninterp spec fn version_in(text: Seq<char>) -> Option<semver::Version>;

/// How `semver` orders one version against another.
pub uninterp spec fn version_order(a: semver::Version, b: semver::Version) -> Order;

/// `semver::Version::parse`: the version a text holds, or nothing where it is
/// not a semantic version. The outcome depends on the text alone; the grammar
/// is not stated.
#[verifier::external_body]
fn read_version(text: &str) -> (version: Option<semver::Version>)
    ensures
        version == version_in(text@),
{
    semver::Version::parse(text).ok()
}

/// `<semver::Version as Ord>::cmp`: by major, minor and patch number, then by
/// pre-release and build metadata. It is a total order, so that the reverse
/// question has the reverse answer and a version equals itself; the rules
/// themselves are not stated.
#[verifier::external_body]
fn weigh(a: &semver::Version, b: &semver::Version) -> (order: Order)
    ensures
        order == version_order(*a, *b),
        version_order(*b, *a) == order.reversed(),
        *a == *b ==> order == Order::Equal,
{
    match a.cmp(b) {
        std::cmp::Ordering::Less => Order::Less,
        std::cmp::Ordering::Equal => Order::Equal,
        std::cmp::Ordering::Greater => Order::Greater,
    }
}

/// How the release `asked` stands to the release `daemon`, where both are
/// versions that can be read.
pub open spec fn release_order(asked: Seq<char>, daemon: Seq<char>) -> Option<Order> {
    match (version_in(asked), version_in(daemon)) {
        (Some(asked), Some(daemon)) => Some(version_order(asked, daemon)),
        _ => None,
    }
}

/// Which of two releases is newer, if both are versions this code can read.
///
/// `Greater` means `asked` is newer than `daemon`. Both are package versions
/// in practice, so `None` is for a hand-built binary somebody gave a release
/// name that is not one.
pub fn newer(asked: &str, daemon: &str) -> (order: Option<Order>)
    ensures
        order == release_order(asked@, daemon@),
        match order {
            Some(order) => release_order(daemon@, asked@) == Some(order.reversed()),
            None => release_order(daemon@, asked@) is None,
        },
        asked@ == daemon@ && order is Some ==> order == Some(Order::Equal),
{
    match (read_version(asked), read_version(daemon)) {
        (Some(asked), Some(daemon)) => Some(weigh(&asked, &daemon)),
        _ => None,
    }
}

/// The session's release is ranked against the daemon's, in that order, and
/// only where both can be read.
pub proof fn the_session_is_ranked_against_the_daemon(
    asked: Seq<char>,
    daemon: Seq<char>,
    a: semver::Version,
    b: semver::Version,
)
    ensures
        version_in(asked) == Some(a) && version_in(daemon) == Some(b) ==> release_order(
            asked,
            daemon,
        ) == Some(version_order(a, b)),
        version_in(asked) is None || version_in(daemon) is None ==> release_order(asked, daemon)
            is None,
{
}

/// Turning an order around swaps less and greater, and doing it twice changes
/// nothing.
pub proof fn an_order_turns_around(order: Order)
    ensures
        order.reversed().reversed() == order,
        order == Order::Less ==> order.reversed() == Order::Greater,
        order == Order::Equal <==> order.reversed() == Order::Equal,
{
}

} // verus!
