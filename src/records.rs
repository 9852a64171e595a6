//! The records a vault holds, and their mathematical model.
use vstd::prelude::*;

verus! {

/// One entry of the vault.
pub struct PasswordRecord {
    pub id: u32,
    pub website: String,
    pub username: String,
    pub password: String,
    pub category: String,
    pub favorite: bool,
    pub notes: String,
}

/// What a `PasswordRecord` holds, as mathematical values.
pub struct RecordModel {
    pub id: u32,
    pub website: Seq<char>,
    pub username: Seq<char>,
    pub password: Seq<char>,
    pub category: Seq<char>,
    pub favorite: bool,
    pub notes: Seq<char>,
}

impl View for PasswordRecord {
    type V = RecordModel;

    open spec fn view(&self) -> RecordModel {
        RecordModel {
            id: self.id,
            website: self.website@,
            username: self.username@,
            password: self.password@,
            category: self.category@,
            favorite: self.favorite,
            notes: self.notes@,
        }
    }
}

/// The models of a sequence of records, in order.
pub open spec fn records_view(v: Seq<PasswordRecord>) -> Seq<RecordModel> {
    v.map_values(|r: PasswordRecord| r@)
}

} // verus!
