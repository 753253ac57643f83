//! The records the service exchanges with its callers, their mathematical
//! views, and the error type every storage operation reports.

use vstd::prelude::*;

verus! {

/// Why a storage operation was refused. The HTTP layer surfaces these as
/// opaque strings; [`StoreError::message`] produces that text.
#[derive(Clone, Copy, Debug, PartialEq, Eq, Structural)]
pub enum StoreError {
    /// A statement addressed a table that has not been created.
    TableMissing,
    /// A lookup that must return a row found none.
    NotFound,
    /// A lookup that may return at most one row found several.
    Ambiguous,
    /// An insert collided with a primary-key or uniqueness constraint.
    DuplicateKey,
    /// An insert referenced a parent row that does not exist.
    MissingReference,
    /// An update addressed a (contestant, show) pairing that is not enrolled.
    NotEnrolled,
    /// The identifier sequence of the table is exhausted.
    IdsExhausted,
}

impl StoreError {
    /// The text of this error, as the HTTP layer reports it.
    pub open spec fn spec_message(self) -> Seq<char> {
        match self {
            StoreError::TableMissing => "relation does not exist"@,
            StoreError::NotFound => "Contestant not found"@,
            StoreError::Ambiguous => "query returned an unexpected number of rows"@,
            StoreError::DuplicateKey => "duplicate key value violates unique constraint"@,
            StoreError::MissingReference => "insert violates foreign key constraint"@,
            StoreError::NotEnrolled => "contestant is not entered onto that show"@,
            StoreError::IdsExhausted => "identifier sequence exhausted"@,
        }
    }

    /// The error text the HTTP layer sends as the body of a failed response.
    pub fn message(&self) -> (r: &'static str)
        ensures
            r@ == self.spec_message(),
    {
        match self {
            StoreError::TableMissing => "relation does not exist",
            StoreError::NotFound => "Contestant not found",
            StoreError::Ambiguous => "query returned an unexpected number of rows",
            StoreError::DuplicateKey => "duplicate key value violates unique constraint",
            StoreError::MissingReference => "insert violates foreign key constraint",
            StoreError::NotEnrolled => "contestant is not entered onto that show",
            StoreError::IdsExhausted => "identifier sequence exhausted",
        }
    }
}

/// The view of an optional 32-bit identifier.
pub open spec fn opt_int(o: Option<i32>) -> Option<int> {
    match o {
        Some(n) => Some(n as int),
        None => None,
    }
}

/// The view of an optional text field.
pub open spec fn opt_seq(o: Option<String>) -> Option<Seq<char>> {
    match o {
        Some(s) => Some(s@),
        None => None,
    }
}

/// A player or administrator account, as sent to and from callers.
#[derive(Debug, PartialEq)]
pub struct User {
    /// Assigned by the store; `None` on a record that has not been inserted.
    pub id: Option<i32>,
    pub name: String,
    pub email: String,
    /// Free-text role tag; the schema does not restrict it.
    pub account_type: String,
}

/// Mathematical view of a [`User`].
#[verifier::ext_equal]
pub ghost struct UserV {
    pub id: Option<int>,
    pub name: Seq<char>,
    pub email: Seq<char>,
    pub account_type: Seq<char>,
}

impl View for User {
    type V = UserV;

    open spec fn view(&self) -> UserV {
        UserV {
            id: opt_int(self.id),
            name: self.name@,
            email: self.email@,
            account_type: self.account_type@,
        }
    }
}

impl Clone for User {
    fn clone(&self) -> (r: Self)
        ensures
            r@ == self@,
    {
        User {
            id: self.id,
            name: self.name.clone(),
            email: self.email.clone(),
            account_type: self.account_type.clone(),
        }
    }
}

/// One season of the competition being tracked.
#[derive(Debug, PartialEq)]
pub struct GameShow {
    /// Assigned by the store; `None` on a record that has not been inserted.
    pub id: Option<i32>,
    pub name: String,
}

/// Mathematical view of a [`GameShow`].
#[verifier::ext_equal]
pub ghost struct GameShowV {
    pub id: Option<int>,
    pub name: Seq<char>,
}

impl View for GameShow {
    type V = GameShowV;

    open spec fn view(&self) -> GameShowV {
        GameShowV { id: opt_int(self.id), name: self.name@ }
    }
}

impl Clone for GameShow {
    fn clone(&self) -> (r: Self)
        ensures
            r@ == self@,
    {
        GameShow { id: self.id, name: self.name.clone() }
    }
}

/// A contestant, together with the enrollment fields a contestants-on-show
/// query fills in; a bare contestant leaves those at their defaults.
#[derive(Debug, PartialEq)]
pub struct Contestant {
    /// Assigned by the store; `None` on a record that has not been inserted.
    pub id: Option<i32>,
    pub name: String,
    /// The season an enrollment query joined against, if any.
    pub id_showseason: Option<i32>,
    /// The nickname of the enrollment, if the record stems from one.
    pub nickname: Option<String>,
    /// Round the contestant was eliminated on; `-1` means still in the game.
    pub round_number: i32,
    pub was_medically_evacuated: bool,
}

/// Mathematical view of a [`Contestant`].
#[verifier::ext_equal]
pub ghost struct ContestantV {
    pub id: Option<int>,
    pub name: Seq<char>,
    pub id_showseason: Option<int>,
    pub nickname: Option<Seq<char>>,
    pub round_number: int,
    pub was_medically_evacuated: bool,
}

impl View for Contestant {
    type V = ContestantV;

    open spec fn view(&self) -> ContestantV {
        ContestantV {
            id: opt_int(self.id),
            name: self.name@,
            id_showseason: opt_int(self.id_showseason),
            nickname: opt_seq(self.nickname),
            round_number: self.round_number as int,
            was_medically_evacuated: self.was_medically_evacuated,
        }
    }
}

impl Clone for Contestant {
    fn clone(&self) -> (r: Self)
        ensures
            r@ == self@,
    {
        Contestant {
            id: self.id,
            name: self.name.clone(),
            id_showseason: self.id_showseason,
            nickname: match &self.nickname {
                Some(n) => Some(n.clone()),
                None => None,
            },
            round_number: self.round_number,
            was_medically_evacuated: self.was_medically_evacuated,
        }
    }
}

/// A group of players competing within one season.
#[derive(Debug, PartialEq)]
pub struct League {
    /// Assigned by the store; `None` on a record that has not been inserted.
    pub id: Option<i32>,
    pub name: String,
    /// The season the league belongs to; the schema allows it to be absent.
    pub id_showseason: Option<i32>,
}

/// Mathematical view of a [`League`].
#[verifier::ext_equal]
pub ghost struct LeagueV {
    pub id: Option<int>,
    pub name: Seq<char>,
    pub id_showseason: Option<int>,
}

impl View for League {
    type V = LeagueV;

    open spec fn view(&self) -> LeagueV {
        LeagueV {
            id: opt_int(self.id),
            name: self.name@,
            id_showseason: opt_int(self.id_showseason),
        }
    }
}

impl Clone for League {
    fn clone(&self) -> (r: Self)
        ensures
            r@ == self@,
    {
        League { id: self.id, name: self.name.clone(), id_showseason: self.id_showseason }
    }
}

} // verus!
