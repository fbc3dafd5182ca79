//! Saved port forwards, for callers that have no connection of their own.

use crate::text::is_digit;
use vstd::prelude::*;

verus! {

/// A copy of all saved forwards, to be applied elsewhere.
pub struct SavedForwardsSyncSnapshot<F> {
    pub revision: String,
    pub exported_at: String,
    pub records: Vec<F>,
}

/// Where forwards are saved.
pub trait SavedForwardStore: Sized {
    type Forward;

    type Checkpoint;

    type Error;

    type Applied;

    fn checkpoint(&self) -> Result<Self::Checkpoint, Self::Error>;

    fn replace_from_checkpoint(&self, checkpoint: &Self::Checkpoint) -> Result<(), Self::Error>;

    fn restore_checkpoint(&self, checkpoint: &Self::Checkpoint) -> Result<(), Self::Error>;

    fn delete_owned_forwards(&self, owner_connection_id: &str) -> Result<usize, Self::Error>;

    fn load_persisted_forwards(&self, session_id: &str) -> Vec<Self::Forward>;

    fn load_syncable_forwards(&self) -> Vec<Self::Forward>;

    fn export_snapshot(&self) -> Result<SavedForwardsSyncSnapshot<Self::Forward>, Self::Error>;

    fn apply_snapshot(
        &self,
        snapshot: SavedForwardsSyncSnapshot<Self::Forward>,
        valid_owner_connection_ids: &Vec<String>,
    ) -> Result<Self::Applied, Self::Error>;

    /// What applying a snapshot comes to where nothing was applied.
    fn nothing_applied() -> Self::Applied;
}

pub open spec fn two_digits(text: Seq<char>, at: int) -> bool {
    is_digit(text[at]) && is_digit(text[at + 1])
}

/// Whether a text is a time of day and date in RFC 3339, in Universal Time: the year takes `year`
/// characters, of which there are more than four only outside the years 0 to 9999, and the fraction of a
/// second takes `fraction` characters with its point.
pub open spec fn is_time(text: Seq<char>, year: int, fraction: int) -> bool {
    let zone = year + 15 + fraction;
    &&& year >= 4
    &&& fraction == 0 || fraction == 4 || fraction == 7 || fraction == 10
    &&& text.len() == zone + 6
    &&& year == 4 ==> two_digits(text, 0) && two_digits(text, 2)
    &&& text[year] == '-' && two_digits(text, year + 1)
    &&& text[year + 3] == '-' && two_digits(text, year + 4)
    &&& text[year + 6] == 'T' && two_digits(text, year + 7)
    &&& text[year + 9] == ':' && two_digits(text, year + 10)
    &&& text[year + 12] == ':' && two_digits(text, year + 13)
    &&& fraction > 0 ==> text[year + 15] == '.'
    &&& forall|i: int| year + 16 <= i < zone ==> is_digit(#[trigger] text[i])
    &&& text.skip(zone) == "+00:00"@
}

pub open spec fn is_time_text(text: Seq<char>) -> bool {
    exists|year: int, fraction: int| is_time(text, year, fraction)
}

/// The time now, as `chrono::Utc::now().to_rfc3339()` writes it. Which time that is is left open.
#[verifier::external_body]
fn time_text() -> (r: String)
    ensures
        is_time_text(r@),
{
    chrono::Utc::now().to_rfc3339()
}

/// The saved forwards of a program; without a store there are none.
pub struct ForwardingRegistry<S: SavedForwardStore> {
    pub saved_store: Option<S>,
}

impl<S: SavedForwardStore> ForwardingRegistry<S> {
    /// Whether a list can be that of the forwards of a session: what the store has, or nothing.
    pub open spec fn lists(&self, session_id: &str, forwards: Vec<S::Forward>) -> bool {
        match self.saved_store {
            None => forwards@.len() == 0,
            Some(store) => call_ensures(
                S::load_persisted_forwards,
                (&store, session_id),
                forwards,
            ),
        }
    }

    pub fn new() -> (r: Self)
        ensures
            r.saved_store is None,
    {
        ForwardingRegistry { saved_store: None }
    }

    pub fn new_with_store(saved_store: S) -> (r: Self)
        ensures
            r.saved_store == Some(saved_store),
    {
        ForwardingRegistry { saved_store: Some(saved_store) }
    }

    /// Captures every saved forward.
    pub fn checkpoint_saved_forwards(&self) -> (r: Result<Option<S::Checkpoint>, S::Error>)
        ensures
            match self.saved_store {
                None => r == Ok::<Option<S::Checkpoint>, S::Error>(None),
                Some(store) => match r {
                    Ok(Some(checkpoint)) => call_ensures(S::checkpoint, (&store,), Ok(checkpoint)),
                    Ok(None) => false,
                    Err(error) => call_ensures(S::checkpoint, (&store,), Err(error)),
                },
            },
    {
        match &self.saved_store {
            None => Ok(None),
            Some(store) => match store.checkpoint() {
                Ok(checkpoint) => Ok(Some(checkpoint)),
                Err(error) => Err(error),
            },
        }
    }

    /// Replaces every saved forward.
    pub fn replace_saved_forwards(&self, checkpoint: &S::Checkpoint) -> (r: Result<(), S::Error>)
        ensures
            match self.saved_store {
                None => r == Ok::<(), S::Error>(()),
                Some(store) => call_ensures(S::replace_from_checkpoint, (&store, checkpoint), r),
            },
    {
        match &self.saved_store {
            None => Ok(()),
            Some(store) => store.replace_from_checkpoint(checkpoint),
        }
    }

    /// Puts every saved forward back after a failure.
    pub fn restore_saved_forwards(&self, checkpoint: &S::Checkpoint) -> (r: Result<(), S::Error>)
        ensures
            match self.saved_store {
                None => r == Ok::<(), S::Error>(()),
                Some(store) => call_ensures(S::restore_checkpoint, (&store, checkpoint), r),
            },
    {
        match &self.saved_store {
            None => Ok(()),
            Some(store) => store.restore_checkpoint(checkpoint),
        }
    }

    pub fn delete_owned_forwards(&self, owner_connection_id: &str) -> (r: Result<usize, S::Error>)
        ensures
            match self.saved_store {
                None => r == Ok::<usize, S::Error>(0),
                Some(store) => call_ensures(
                    S::delete_owned_forwards,
                    (&store, owner_connection_id),
                    r,
                ),
            },
    {
        match &self.saved_store {
            None => Ok(0),
            Some(store) => store.delete_owned_forwards(owner_connection_id),
        }
    }

    pub fn load_persisted_forwards(&self, session_id: &str) -> (r: Vec<S::Forward>)
        ensures
            self.lists(session_id, r),
    {
        match &self.saved_store {
            None => Vec::new(),
            Some(store) => store.load_persisted_forwards(session_id),
        }
    }

    pub fn list_saved_forwards(&self, session_id: &str) -> (r: Vec<S::Forward>)
        ensures
            self.lists(session_id, r),
    {
        self.load_persisted_forwards(session_id)
    }

    pub fn list_all_saved_forwards(&self) -> (r: Vec<S::Forward>)
        ensures
            match self.saved_store {
                None => r@.len() == 0,
                Some(store) => call_ensures(S::load_syncable_forwards, (&store,), r),
            },
    {
        match &self.saved_store {
            None => Vec::new(),
            Some(store) => store.load_syncable_forwards(),
        }
    }

    /// A snapshot of the saved forwards; without a store it is empty and bears the present time.
    pub fn export_saved_forwards_snapshot(&self) -> (r: Result<
        SavedForwardsSyncSnapshot<S::Forward>,
        S::Error,
    >)
        ensures
            match self.saved_store {
                None => r matches Ok(snapshot) && snapshot.revision@.len() == 0
                    && snapshot.records@.len() == 0 && is_time_text(snapshot.exported_at@),
                Some(store) => call_ensures(S::export_snapshot, (&store,), r),
            },
    {
        match &self.saved_store {
            None => Ok(
                SavedForwardsSyncSnapshot {
                    revision: String::new(),
                    exported_at: time_text(),
                    records: Vec::new(),
                },
            ),
            Some(store) => store.export_snapshot(),
        }
    }

    pub fn apply_saved_forwards_snapshot(
        &self,
        snapshot: SavedForwardsSyncSnapshot<S::Forward>,
        valid_owner_connection_ids: &Vec<String>,
    ) -> (r: Result<S::Applied, S::Error>)
        ensures
            match self.saved_store {
                None => r matches Ok(applied) && call_ensures(S::nothing_applied, (), applied),
                Some(store) => call_ensures(
                    S::apply_snapshot,
                    (&store, snapshot, valid_owner_connection_ids),
                    r,
                ),
            },
    {
        match &self.saved_store {
            None => Ok(S::nothing_applied()),
            Some(store) => store.apply_snapshot(snapshot, valid_owner_connection_ids),
        }
    }
}

/// The two ways to list the forwards of a session agree: both give nothing without a store, and
/// with one that answers alike when it is asked alike they give the same list.
pub proof fn law_listings_agree<S: SavedForwardStore>(
    registry: ForwardingRegistry<S>,
    session_id: &str,
    loaded: Vec<S::Forward>,
    listed: Vec<S::Forward>,
)
    requires
        registry.lists(session_id, loaded),
        registry.lists(session_id, listed),
        registry.saved_store matches Some(store) ==> forall|
            one: Vec<S::Forward>,
            other: Vec<S::Forward>,
        |
            #[trigger] call_ensures(S::load_persisted_forwards, (&store, session_id), one)
                && #[trigger] call_ensures(S::load_persisted_forwards, (&store, session_id), other)
                ==> one@ == other@,
    ensures
        loaded@ == listed@,
        registry.saved_store is None ==> loaded@.len() == 0,
{
}

} // verus!
