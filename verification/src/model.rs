//! The record types: todos and their location triggers, with the validity
//! rules that the store enforces when records are created or replaced.

use vstd::prelude::*;

verus! {

/// Latitude bound, in degrees scaled by ten million (90 degrees).
pub const MAX_LATITUDE_E7: i64 = 900_000_000;

/// Longitude bound, in degrees scaled by ten million (180 degrees).
pub const MAX_LONGITUDE_E7: i64 = 1_800_000_000;

/// A named circular region tied to a todo: entering it should surface the
/// todo. The centre is held in degrees scaled by ten million, the radius in
/// millimetres.
#[derive(Debug)]
pub struct LocationTrigger {
    pub id: u32,
    pub name: String,
    pub latitude_e7: i64,
    pub longitude_e7: i64,
    pub radius_mm: u64,
}

/// Whether a coordinate lies in the valid range: latitude within 90 degrees
/// of the equator, longitude within 180 degrees of the prime meridian.
pub open spec fn spec_coordinate_in_range(latitude_e7: int, longitude_e7: int) -> bool {
    &&& -900_000_000 <= latitude_e7 <= 900_000_000
    &&& -1_800_000_000 <= longitude_e7 <= 1_800_000_000
}

/// Range check for a coordinate; callers validate untrusted input with this
/// before a coordinate reaches the store or the matcher.
pub fn coordinate_in_range(latitude_e7: i64, longitude_e7: i64) -> (r: bool)
    ensures
        r == spec_coordinate_in_range(latitude_e7 as int, longitude_e7 as int),
{
    -MAX_LATITUDE_E7 <= latitude_e7 && latitude_e7 <= MAX_LATITUDE_E7
        && -MAX_LONGITUDE_E7 <= longitude_e7 && longitude_e7 <= MAX_LONGITUDE_E7
}

impl LocationTrigger {
    /// A trigger is valid when its centre is a real coordinate and its
    /// radius is positive.
    pub open spec fn spec_valid(self) -> bool {
        &&& spec_coordinate_in_range(self.latitude_e7 as int, self.longitude_e7 as int)
        &&& self.radius_mm > 0
    }

    /// Validity check for one trigger zone.
    pub fn is_valid(&self) -> (r: bool)
        ensures
            r == self.spec_valid(),
    {
        coordinate_in_range(self.latitude_e7, self.longitude_e7) && self.radius_mm > 0
    }
}

impl Clone for LocationTrigger {
    fn clone(&self) -> (res: Self)
        ensures
            res == *self,
    {
        LocationTrigger {
            id: self.id,
            name: self.name.clone(),
            latitude_e7: self.latitude_e7,
            longitude_e7: self.longitude_e7,
            radius_mm: self.radius_mm,
        }
    }
}

/// A todo record: a task to be done, optionally annotated with trigger
/// zones that make it eligible for proximity matching.
#[derive(Debug)]
pub struct Todo {
    pub id: u32,
    pub title: String,
    pub completed: bool,
    pub description: Option<String>,
    pub due_date: Option<String>,
    pub personal_notes: Option<String>,
    pub completion_percentage: Option<u8>,
    pub location_triggers: Option<Vec<LocationTrigger>>,
}

/// The mathematical value of a [`Todo`]: the same fields with the trigger
/// list as a sequence. Contracts speak of this value, so that a clone and
/// its original are interchangeable.
pub struct TodoView {
    pub id: u32,
    pub title: Seq<char>,
    pub completed: bool,
    pub description: Option<Seq<char>>,
    pub due_date: Option<Seq<char>>,
    pub personal_notes: Option<Seq<char>>,
    pub completion_percentage: Option<u8>,
    pub location_triggers: Option<Seq<LocationTrigger>>,
}

/// The view of an optional text field.
pub open spec fn text_view(s: Option<String>) -> Option<Seq<char>> {
    match s {
        Some(t) => Some(t@),
        None => None,
    }
}

impl View for Todo {
    type V = TodoView;

    open spec fn view(&self) -> TodoView {
        TodoView {
            id: self.id,
            title: self.title@,
            completed: self.completed,
            description: text_view(self.description),
            due_date: text_view(self.due_date),
            personal_notes: text_view(self.personal_notes),
            completion_percentage: self.completion_percentage,
            location_triggers: triggers_view(self.location_triggers),
        }
    }
}

impl TodoView {
    /// The trigger zones of a todo, as a sequence; a todo with no trigger
    /// list has no zones.
    pub open spec fn zones(self) -> Seq<LocationTrigger> {
        match self.location_triggers {
            Some(zs) => zs,
            None => Seq::empty(),
        }
    }

    /// A record is valid when every trigger zone is valid and the
    /// completion percentage, if present, is at most 100.
    pub open spec fn spec_valid(self) -> bool {
        spec_fields_valid(self.location_triggers, self.completion_percentage)
    }

    /// The same record under another identifier.
    pub open spec fn with_id(self, id: u32) -> TodoView {
        TodoView { id: id, ..self }
    }
}

/// Every trigger zone of the list is valid.
pub open spec fn spec_all_triggers_valid(zs: Seq<LocationTrigger>) -> bool {
    forall|j: int| 0 <= j < zs.len() ==> (#[trigger] zs[j]).spec_valid()
}

/// Validity of the caller-supplied parts of a record: every trigger zone
/// valid, and the completion percentage, if present, at most 100.
pub open spec fn spec_fields_valid(
    location_triggers: Option<Seq<LocationTrigger>>,
    completion_percentage: Option<u8>,
) -> bool {
    &&& match location_triggers {
        Some(zs) => spec_all_triggers_valid(zs),
        None => true,
    }
    &&& match completion_percentage {
        Some(p) => p <= 100,
        None => true,
    }
}

fn clone_text(s: &Option<String>) -> (res: Option<String>)
    ensures
        res == *s,
{
    match s {
        Some(t) => Some(t.clone()),
        None => None,
    }
}

fn clone_triggers(zs: &Option<Vec<LocationTrigger>>) -> (res: Option<Vec<LocationTrigger>>)
    ensures
        match (zs, &res) {
            (Some(a), Some(b)) => a@ == b@,
            (None, None) => true,
            _ => false,
        },
{
    match zs {
        Some(v) => {
            let mut out: Vec<LocationTrigger> = Vec::new();
            let mut i: usize = 0;
            while i < v.len()
                invariant
                    i <= v.len(),
                    out@ =~= v@.take(i as int),
                decreases v.len() - i,
            {
                out.push(v[i].clone());
                i = i + 1;
            }
            assert(out@ =~= v@);
            Some(out)
        },
        None => None,
    }
}

impl Clone for Todo {
    fn clone(&self) -> (res: Self)
        ensures
            res@ == self@,
    {
        Todo {
            id: self.id,
            title: self.title.clone(),
            completed: self.completed,
            description: clone_text(&self.description),
            due_date: clone_text(&self.due_date),
            personal_notes: clone_text(&self.personal_notes),
            completion_percentage: self.completion_percentage,
            location_triggers: clone_triggers(&self.location_triggers),
        }
    }
}

/// The view of an optional trigger list.
pub open spec fn triggers_view(zs: Option<Vec<LocationTrigger>>) -> Option<Seq<LocationTrigger>> {
    match zs {
        Some(v) => Some(v@),
        None => None,
    }
}

/// Validity check over the caller-supplied parts of a record.
pub fn fields_valid(
    location_triggers: &Option<Vec<LocationTrigger>>,
    completion_percentage: Option<u8>,
) -> (r: bool)
    ensures
        r == spec_fields_valid(triggers_view(*location_triggers), completion_percentage),
{
    let pct_ok = match completion_percentage {
        Some(p) => p <= 100,
        None => true,
    };
    if !pct_ok {
        return false;
    }
    match location_triggers {
        Some(zs) => all_triggers_valid(zs),
        None => true,
    }
}

/// Validity check for a whole trigger list.
fn all_triggers_valid(zs: &Vec<LocationTrigger>) -> (r: bool)
    ensures
        r == spec_all_triggers_valid(zs@),
{
    let mut i: usize = 0;
    while i < zs.len()
        invariant
            i <= zs.len(),
            forall|j: int| 0 <= j < i ==> (#[trigger] zs@[j]).spec_valid(),
        decreases zs.len() - i,
    {
        if !zs[i].is_valid() {
            assert(!zs@[i as int].spec_valid());
            return false;
        }
        i = i + 1;
    }
    true
}

/// Validity check for a full record, as enforced when a record is replaced.
pub fn todo_is_valid(t: &Todo) -> (r: bool)
    ensures
        r == t@.spec_valid(),
{
    fields_valid(&t.location_triggers, t.completion_percentage)
}

/// The caller-supplied parts of a new todo: everything but the identifier,
/// which the store assigns, and the completion flag, which starts false.
pub struct CreateTodo {
    pub title: String,
    pub description: Option<String>,
    pub due_date: Option<String>,
    pub personal_notes: Option<String>,
    pub completion_percentage: Option<u8>,
    pub location_triggers: Option<Vec<LocationTrigger>>,
}

impl CreateTodo {
    /// The payload is valid under the same rules as a full record.
    pub open spec fn spec_valid(self) -> bool {
        spec_fields_valid(triggers_view(self.location_triggers), self.completion_percentage)
    }

    /// The record that the payload describes, once the store assigns it the
    /// identifier `id`; a new record always starts incomplete.
    pub open spec fn spec_into_todo(self, id: u32) -> TodoView {
        TodoView {
            id: id,
            title: self.title@,
            completed: false,
            description: text_view(self.description),
            due_date: text_view(self.due_date),
            personal_notes: text_view(self.personal_notes),
            completion_percentage: self.completion_percentage,
            location_triggers: triggers_view(self.location_triggers),
        }
    }

    /// Validity check for a creation payload.
    pub fn is_valid(&self) -> (r: bool)
        ensures
            r == self.spec_valid(),
    {
        fields_valid(&self.location_triggers, self.completion_percentage)
    }

    /// Build the record that this payload describes under identifier `id`.
    pub fn into_todo(self, id: u32) -> (t: Todo)
        ensures
            t@ == self.spec_into_todo(id),
    {
        Todo {
            id: id,
            title: self.title,
            completed: false,
            description: self.description,
            due_date: self.due_date,
            personal_notes: self.personal_notes,
            completion_percentage: self.completion_percentage,
            location_triggers: self.location_triggers,
        }
    }
}

} // verus!
