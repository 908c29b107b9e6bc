//! The play-session record types and their conversion from the JSON
//! payloads the command layer hands over: a trial (training-ground)
//! record and a hundred-battles record, each an append-only log row.
//! Parsing is strict about identifiers and lenient about the fields
//! the older clients left out, exactly as the stored data requires.

use vstd::prelude::*;

use crate::json::spec_get;
use crate::json::spec_get_str;
use crate::json::spec_str_or;
use crate::json::JsonValue;

verus! {

broadcast use vstd::std_specs::vec::axiom_vec_index_decreases;

/// One training-ground session: the layer reached, the bosses met,
/// the five cards offered and which was flipped.
pub struct TrialRecord {
    pub id: String,
    pub account_id: String,
    pub role_id: String,
    pub layer: i64,
    pub bosses: Vec<String>,
    pub card_1: String,
    pub card_2: String,
    pub card_3: String,
    pub card_4: String,
    pub card_5: String,
    pub flipped_index: i64,
    pub date: String,
    pub notes: Option<String>,
}

/// One hundred-battles session: the gold moved and who played it.
pub struct BaizhanRecord {
    pub id: String,
    pub account_id: String,
    pub role_id: String,
    pub role_name: Option<String>,
    pub server: Option<String>,
    pub date: String,
    pub gold_income: i64,
    pub gold_expense: Option<i64>,
    pub notes: Option<String>,
    pub record_type: String,
}

/// The record type a hundred-battles payload gets when it names none.
pub fn default_baizhan_type() -> (r: String)
    ensures
        r@ == "baizhan"@,
{
    String::from_str("baizhan")
}

/// The number under `key`, or zero when absent.
pub open spec fn spec_int_or_zero(v: JsonValue, key: Seq<char>) -> int {
    match spec_get(v, key) {
        Some(JsonValue::Int(i)) => i as int,
        _ => 0,
    }
}

/// Whether a payload carries what a hundred-battles record requires:
/// its id, the owning account and role, a date, and a gold income.
pub open spec fn spec_baizhan_ok(v: JsonValue) -> bool {
    &&& spec_get_str(v, "id"@) is Some
    &&& spec_get_str(v, "accountId"@) is Some
    &&& spec_get_str(v, "roleId"@) is Some
    &&& spec_get_str(v, "date"@) is Some
    &&& spec_get(v, "goldIncome"@) matches Some(JsonValue::Int(_))
}

/// Reads a hundred-battles record from a parsed payload: `Some`
/// exactly on the payloads `spec_baizhan_ok` admits, with each field
/// as stored — the record type defaulting to `baizhan`, the optional
/// fields kept optional.
pub fn baizhan_record_from_json(v: &JsonValue) -> (r: Option<BaizhanRecord>)
    ensures
        r is Some <==> spec_baizhan_ok(*v),
        match r {
            Some(rec) => {
                &&& Some(rec.id@) == spec_get_str(*v, "id"@)
                &&& Some(rec.account_id@) == spec_get_str(*v, "accountId"@)
                &&& Some(rec.role_id@) == spec_get_str(*v, "roleId"@)
                &&& Some(rec.date@) == spec_get_str(*v, "date"@)
                &&& spec_get(*v, "goldIncome"@) == Some(JsonValue::Int(rec.gold_income))
                &&& (match rec.role_name {
                    Some(s) => spec_get_str(*v, "roleName"@) == Some(s@),
                    None => spec_get_str(*v, "roleName"@) is None,
                })
                &&& (match rec.server {
                    Some(s) => spec_get_str(*v, "server"@) == Some(s@),
                    None => spec_get_str(*v, "server"@) is None,
                })
                &&& (match rec.notes {
                    Some(s) => spec_get_str(*v, "notes"@) == Some(s@),
                    None => spec_get_str(*v, "notes"@) is None,
                })
                &&& (match rec.gold_expense {
                    Some(i) => spec_get(*v, "goldExpense"@) == Some(JsonValue::Int(i)),
                    None => !(spec_get(*v, "goldExpense"@) matches Some(JsonValue::Int(_))),
                })
                &&& rec.record_type@ == spec_str_or(*v, "type"@, "baizhan"@)
            },
            None => true,
        },
{
    let id = match v.get_opt_str("id") {
        Some(s) => s,
        None => {
            return None;
        },
    };
    let account_id = match v.get_opt_str("accountId") {
        Some(s) => s,
        None => {
            return None;
        },
    };
    let role_id = match v.get_opt_str("roleId") {
        Some(s) => s,
        None => {
            return None;
        },
    };
    let date = match v.get_opt_str("date") {
        Some(s) => s,
        None => {
            return None;
        },
    };
    let gold_income = match v.get("goldIncome") {
        Some(f) => match f {
            JsonValue::Int(i) => *i,
            _ => {
                return None;
            },
        },
        None => {
            return None;
        },
    };
    let gold_expense = match v.get("goldExpense") {
        Some(f) => match f {
            JsonValue::Int(i) => Some(*i),
            _ => None,
        },
        None => None,
    };
    Some(
        BaizhanRecord {
            id,
            account_id,
            role_id,
            role_name: v.get_opt_str("roleName"),
            server: v.get_opt_str("server"),
            date,
            gold_income,
            gold_expense,
            notes: v.get_opt_str("notes"),
            record_type: v.get_str_or("type", "baizhan"),
        },
    )
}

/// Whether a payload carries what a trial record requires.
pub open spec fn spec_trial_ok(v: JsonValue) -> bool {
    &&& spec_get_str(v, "id"@) is Some
    &&& spec_get_str(v, "accountId"@) is Some
    &&& spec_get_str(v, "roleId"@) is Some
    &&& spec_get_str(v, "date"@) is Some
}

/// The boss names of a trial payload: the string elements of its
/// `bosses` array, in order.
pub open spec fn spec_boss_names(v: JsonValue) -> Seq<Seq<char>> {
    match spec_get(v, "bosses"@) {
        Some(JsonValue::Arr(a)) => spec_strings_of(a@),
        _ => Seq::empty(),
    }
}

/// The string elements of a value sequence, in order.
pub open spec fn spec_strings_of(a: Seq<JsonValue>) -> Seq<Seq<char>>
    decreases a.len(),
{
    if a.len() == 0 {
        Seq::empty()
    } else {
        let prev = spec_strings_of(a.drop_last());
        match a.last() {
            JsonValue::Str(s) => prev.push(s@),
            _ => prev,
        }
    }
}

/// Reads a trial record from a parsed payload: `Some` exactly on the
/// payloads `spec_trial_ok` admits. The layer and flipped card index
/// default to zero, the five cards to empty text, and the boss list
/// keeps the string entries of the `bosses` array in order.
pub fn trial_record_from_json(v: &JsonValue) -> (r: Option<TrialRecord>)
    ensures
        r is Some <==> spec_trial_ok(*v),
        match r {
            Some(rec) => {
                &&& Some(rec.id@) == spec_get_str(*v, "id"@)
                &&& Some(rec.account_id@) == spec_get_str(*v, "accountId"@)
                &&& Some(rec.role_id@) == spec_get_str(*v, "roleId"@)
                &&& Some(rec.date@) == spec_get_str(*v, "date"@)
                &&& rec.layer as int == spec_int_or_zero(*v, "layer"@)
                &&& rec.flipped_index as int == spec_int_or_zero(*v, "flippedIndex"@)
                &&& rec.card_1@ == spec_str_or(*v, "card1"@, Seq::empty())
                &&& rec.card_2@ == spec_str_or(*v, "card2"@, Seq::empty())
                &&& rec.card_3@ == spec_str_or(*v, "card3"@, Seq::empty())
                &&& rec.card_4@ == spec_str_or(*v, "card4"@, Seq::empty())
                &&& rec.card_5@ == spec_str_or(*v, "card5"@, Seq::empty())
                &&& rec.bosses@.map_values(|s: String| s@) == spec_boss_names(*v)
                &&& (match rec.notes {
                    Some(s) => spec_get_str(*v, "notes"@) == Some(s@),
                    None => spec_get_str(*v, "notes"@) is None,
                })
            },
            None => true,
        },
{
    let id = match v.get_opt_str("id") {
        Some(s) => s,
        None => {
            return None;
        },
    };
    let account_id = match v.get_opt_str("accountId") {
        Some(s) => s,
        None => {
            return None;
        },
    };
    let role_id = match v.get_opt_str("roleId") {
        Some(s) => s,
        None => {
            return None;
        },
    };
    let date = match v.get_opt_str("date") {
        Some(s) => s,
        None => {
            return None;
        },
    };
    let layer = match v.get("layer") {
        Some(f) => match f {
            JsonValue::Int(i) => *i,
            _ => 0,
        },
        None => 0,
    };
    let flipped_index = match v.get("flippedIndex") {
        Some(f) => match f {
            JsonValue::Int(i) => *i,
            _ => 0,
        },
        None => 0,
    };
    let mut bosses: Vec<String> = Vec::new();
    match v.get_arr("bosses") {
        Some(arr) => {
            let n = arr.len();
            let mut i: usize = 0;
            proof {
                assert(arr@.take(0) =~= Seq::<JsonValue>::empty());
                assert(bosses@.map_values(|s: String| s@) =~= Seq::<Seq<char>>::empty());
            }
            while i < n
                invariant
                    i <= n == arr@.len(),
                    bosses@.map_values(|s: String| s@) == spec_strings_of(arr@.take(i as int)),
                decreases n - i,
            {
                proof {
                    assert(arr@.take(i + 1).drop_last() =~= arr@.take(i as int));
                    assert(arr@.take(i + 1).last() == arr@[i as int]);
                }
                match &arr[i] {
                    JsonValue::Str(s) => {
                        bosses.push(s.clone());
                        proof {
                            assert(bosses@.map_values(|s: String| s@) =~= spec_strings_of(
                                arr@.take(i + 1),
                            ));
                        }
                    },
                    _ => {},
                }
                i = i + 1;
            }
            proof {
                assert(arr@.take(n as int) =~= arr@);
            }
        },
        None => {
        },
    }
    proof {
        reveal_strlit("");
        assert(""@ =~= Seq::<char>::empty());
    }
    Some(
        TrialRecord {
            id,
            account_id,
            role_id,
            layer,
            bosses,
            card_1: v.get_str_or("card1", ""),
            card_2: v.get_str_or("card2", ""),
            card_3: v.get_str_or("card3", ""),
            card_4: v.get_str_or("card4", ""),
            card_5: v.get_str_or("card5", ""),
            flipped_index,
            date,
            notes: v.get_opt_str("notes"),
        },
    )
}

/// What the configuration-blob diagnostic reports: whether the table
/// and the row are there, how many bytes the blob holds, whether it
/// parses, and how many fields the parsed object carries.
pub struct ConfigDebug {
    pub table_exists: bool,
    pub present: bool,
    pub length: usize,
    pub parse_ok: bool,
    pub field_count: usize,
}

/// Summarizes the stored configuration blob for the diagnostic
/// report. The command layer only renders this value as text.
pub fn config_debug(table_exists: bool, config: Option<&String>) -> (r: ConfigDebug)
    ensures
        r.table_exists == table_exists,
        r.present == (config is Some),
        match config {
            Some(s) => {
                &&& r.length == vstd::utf8::encode_utf8(s@).len() as usize
                &&& r.parse_ok == (crate::json::spec_json_parse(s@) is Some)
                &&& (match crate::json::spec_json_parse(s@) {
                    Some(JsonValue::Obj(fields)) => r.field_count == fields@.len(),
                    _ => r.field_count == 0,
                })
            },
            None => r.length == 0 && !r.parse_ok && r.field_count == 0,
        },
{
    match config {
        None => ConfigDebug {
            table_exists,
            present: false,
            length: 0,
            parse_ok: false,
            field_count: 0,
        },
        Some(s) => {
            let length = s.as_str().len();
            match crate::json::json_parse(s.as_str()) {
                Some(v) => {
                    let field_count = match &v {
                        JsonValue::Obj(fields) => fields.len(),
                        _ => 0,
                    };
                    ConfigDebug { table_exists, present: true, length, parse_ok: true, field_count }
                },
                None => ConfigDebug {
                    table_exists,
                    present: true,
                    length,
                    parse_ok: false,
                    field_count: 0,
                },
            }
        },
    }
}

/// One stored equipment entry, as the structured columns hold it. The
/// open-ended attribute blocks stay parsed documents; the shell
/// serializes them when it writes the row.
pub struct EquipmentRow {
    pub id: String,
    pub name: String,
    pub ui_id: String,
    pub icon_id: Option<i64>,
    pub level: i64,
    pub quality: String,
    pub bind_type: Option<i64>,
    pub type_label: Option<String>,
    pub attribute_types: Option<JsonValue>,
    pub attributes: Option<JsonValue>,
    pub recommend: Option<String>,
    pub diamonds: Option<JsonValue>,
}

/// An optional field that must be a number when present.
pub open spec fn spec_opt_int_field(v: JsonValue, key: Seq<char>) -> bool {
    match spec_get(v, key) {
        Some(f) => f is Int,
        None => true,
    }
}

/// An optional field that must be a string when present.
pub open spec fn spec_opt_str_field(v: JsonValue, key: Seq<char>) -> bool {
    match spec_get(v, key) {
        Some(f) => f is Str,
        None => true,
    }
}

/// An optional field that must be an array when present.
pub open spec fn spec_opt_arr_field(v: JsonValue, key: Seq<char>) -> bool {
    match spec_get(v, key) {
        Some(f) => f is Arr,
        None => true,
    }
}

/// Whether a payload carries what an equipment row requires: the
/// upstream identifier, names and level, with every optional field of
/// its declared kind.
pub open spec fn spec_equipment_ok(v: JsonValue) -> bool {
    &&& spec_get_str(v, "ID"@) is Some
    &&& spec_get_str(v, "Name"@) is Some
    &&& spec_get_str(v, "UiID"@) is Some
    &&& spec_get_str(v, "Quality"@) is Some
    &&& spec_get(v, "Level"@) matches Some(JsonValue::Int(_))
    &&& spec_opt_int_field(v, "IconID"@)
    &&& spec_opt_int_field(v, "BindType"@)
    &&& spec_opt_str_field(v, "TypeLabel"@)
    &&& spec_opt_str_field(v, "Recommend"@)
    &&& spec_opt_arr_field(v, "attributes"@)
    &&& spec_opt_arr_field(v, "Diamonds"@)
}

/// Reads an equipment entry from a parsed payload: `Some` exactly on
/// the payloads `spec_equipment_ok` admits — a malformed entry rejects
/// the whole batch before anything is written.
pub fn equipment_from_json(v: &JsonValue) -> (r: Option<EquipmentRow>)
    ensures
        r is Some <==> spec_equipment_ok(*v),
        match r {
            Some(row) => {
                &&& Some(row.id@) == spec_get_str(*v, "ID"@)
                &&& Some(row.name@) == spec_get_str(*v, "Name"@)
                &&& Some(row.ui_id@) == spec_get_str(*v, "UiID"@)
                &&& Some(row.quality@) == spec_get_str(*v, "Quality"@)
                &&& spec_get(*v, "Level"@) == Some(JsonValue::Int(row.level))
                &&& (match row.icon_id {
                    Some(i) => spec_get(*v, "IconID"@) == Some(JsonValue::Int(i)),
                    None => spec_get(*v, "IconID"@) is None,
                })
                &&& (match row.bind_type {
                    Some(i) => spec_get(*v, "BindType"@) == Some(JsonValue::Int(i)),
                    None => spec_get(*v, "BindType"@) is None,
                })
                &&& (match row.type_label {
                    Some(s) => spec_get_str(*v, "TypeLabel"@) == Some(s@),
                    None => spec_get(*v, "TypeLabel"@) is None,
                })
                &&& (match row.recommend {
                    Some(s) => spec_get_str(*v, "Recommend"@) == Some(s@),
                    None => spec_get(*v, "Recommend"@) is None,
                })
                &&& (row.attribute_types is Some <==> spec_get(*v, "AttributeTypes"@) is Some)
                &&& (row.attributes is Some <==> spec_get(*v, "attributes"@) is Some)
                &&& (row.diamonds is Some <==> spec_get(*v, "Diamonds"@) is Some)
            },
            None => true,
        },
{
    let id = match v.get_opt_str("ID") {
        Some(s) => s,
        None => {
            return None;
        },
    };
    let name = match v.get_opt_str("Name") {
        Some(s) => s,
        None => {
            return None;
        },
    };
    let ui_id = match v.get_opt_str("UiID") {
        Some(s) => s,
        None => {
            return None;
        },
    };
    let quality = match v.get_opt_str("Quality") {
        Some(s) => s,
        None => {
            return None;
        },
    };
    let level = match v.get("Level") {
        Some(f) => match f {
            JsonValue::Int(i) => *i,
            _ => {
                return None;
            },
        },
        None => {
            return None;
        },
    };
    let icon_id = match v.get("IconID") {
        Some(f) => match f {
            JsonValue::Int(i) => Some(*i),
            _ => {
                return None;
            },
        },
        None => None,
    };
    let bind_type = match v.get("BindType") {
        Some(f) => match f {
            JsonValue::Int(i) => Some(*i),
            _ => {
                return None;
            },
        },
        None => None,
    };
    let type_label = match v.get("TypeLabel") {
        Some(f) => match f {
            JsonValue::Str(s) => Some(s.clone()),
            _ => {
                return None;
            },
        },
        None => None,
    };
    let recommend = match v.get("Recommend") {
        Some(f) => match f {
            JsonValue::Str(s) => Some(s.clone()),
            _ => {
                return None;
            },
        },
        None => None,
    };
    let attribute_types = match v.get("AttributeTypes") {
        Some(f) => Some(dup_json(f)),
        None => None,
    };
    let attributes = match v.get("attributes") {
        Some(f) => match f {
            JsonValue::Arr(_) => Some(dup_json(f)),
            _ => {
                return None;
            },
        },
        None => None,
    };
    let diamonds = match v.get("Diamonds") {
        Some(f) => match f {
            JsonValue::Arr(_) => Some(dup_json(f)),
            _ => {
                return None;
            },
        },
        None => None,
    };
    Some(
        EquipmentRow {
            id,
            name,
            ui_id,
            icon_id,
            level,
            quality,
            bind_type,
            type_label,
            attribute_types,
            attributes,
            recommend,
            diamonds,
        },
    )
}

/// Copies a parsed document, variant by variant. Nothing downstream
/// reads inside these pass-through blocks, so no claim is made of the
/// copy's contents.
fn dup_json(v: &JsonValue) -> JsonValue
    decreases *v,
{
    match v {
        JsonValue::Null => JsonValue::Null,
        JsonValue::Bool(b) => JsonValue::Bool(*b),
        JsonValue::Int(i) => JsonValue::Int(*i),
        JsonValue::Str(s) => JsonValue::Str(s.clone()),
        JsonValue::Arr(items) => {
            let n = items.len();
            let mut out: Vec<JsonValue> = Vec::new();
            let mut i: usize = 0;
            while i < n
                invariant
                    i <= n == items@.len(),
                    *v == JsonValue::Arr(*items),
                decreases n - i,
            {
                proof {
                    assert(decreases_to!(*v => (*v)->Arr_0));
                    assert((*v)->Arr_0 == *items);
                    assert(decreases_to!(*items => items@));
                    assert(decreases_to!(items@ => items@[i as int]));
                    assert(decreases_to!(*v => items@[i as int]));
                }
                out.push(dup_json(&items[i]));
                i = i + 1;
            }
            JsonValue::Arr(out)
        },
        JsonValue::Obj(fields) => {
            let n = fields.len();
            let mut out: Vec<(String, JsonValue)> = Vec::new();
            let mut i: usize = 0;
            while i < n
                invariant
                    i <= n == fields@.len(),
                    *v == JsonValue::Obj(*fields),
                decreases n - i,
            {
                proof {
                    assert(decreases_to!(*v => (*v)->Obj_0));
                    assert((*v)->Obj_0 == *fields);
                    assert(decreases_to!(*fields => fields@));
                    assert(decreases_to!(fields@ => fields@[i as int]));
                    assert(decreases_to!(*v => fields@[i as int]));
                }
                let key = fields[i].0.clone();
                let val = dup_json(&fields[i].1);
                out.push((key, val));
                i = i + 1;
            }
            JsonValue::Obj(out)
        },
    }
}

/// Groups owned rows under their parents by a stored key: for each
/// parent key, the indexes of the rows whose owner field names it, in
/// order. The command layer uses it to nest roles under accounts and
/// boss lists under raids.
pub fn group_by_key(
    parent_keys: &Vec<String>,
    owners: &Vec<String>,
) -> (groups: Vec<Vec<usize>>)
    ensures
        groups@.len() == parent_keys@.len(),
        forall|a: int, k: int|
            0 <= a < groups@.len() && 0 <= k < (#[trigger] groups@[a])@.len() ==> (
            #[trigger] groups@[a]@[k]) < owners@.len() && owners@[groups@[a]@[k] as int]@
                == parent_keys@[a]@,
        forall|j: int, a: int|
            0 <= j < owners@.len() && 0 <= a < parent_keys@.len() && (
            #[trigger] owners@[j])@ == (#[trigger] parent_keys@[a])@ ==> exists|k: int|
                0 <= k < groups@[a]@.len() && groups@[a]@[k] == j,
{
    let na = parent_keys.len();
    let nr = owners.len();
    let mut groups: Vec<Vec<usize>> = Vec::new();
    let mut a: usize = 0;
    while a < na
        invariant
            a <= na == parent_keys@.len(),
            nr == owners@.len(),
            groups@.len() == a,
            forall|x: int, k: int|
                0 <= x < a && 0 <= k < (#[trigger] groups@[x])@.len() ==> (#[trigger] groups@[x]@[k])
                    < owners@.len() && owners@[groups@[x]@[k] as int]@
                    == parent_keys@[x]@,
            forall|j: int, x: int|
                0 <= j < owners@.len() && 0 <= x < a && (#[trigger] owners@[j])@ == (
                #[trigger] parent_keys@[x])@ ==> exists|k: int|
                    0 <= k < groups@[x]@.len() && groups@[x]@[k] == j,
        decreases na - a,
    {
        let mut members: Vec<usize> = Vec::new();
        let mut j: usize = 0;
        while j < nr
            invariant
                j <= nr == owners@.len(),
                a < parent_keys@.len(),
                forall|k: int|
                    0 <= k < members@.len() ==> (#[trigger] members@[k]) < owners@.len()
                        && owners@[members@[k] as int]@ == parent_keys@[a as int]@,
                forall|x: int|
                    0 <= x < j && (#[trigger] owners@[x])@ == parent_keys@[a as int]@
                        ==> exists|k: int| 0 <= k < members@.len() && members@[k] == x,
            decreases nr - j,
        {
            if crate::text::str_eq(owners[j].as_str(), parent_keys[a].as_str()) {
                let ghost m0 = members@;
                members.push(j);
                proof {
                    assert(members@[members@.len() - 1] == j);
                    assert forall|x: int|
                        0 <= x < j && (#[trigger] owners@[x])@ == parent_keys@[a as int]@
                            implies exists|k: int|
                        0 <= k < members@.len() && members@[k] == x by {
                        let k = choose|k: int| 0 <= k < m0.len() && m0[k] == x;
                        assert(members@[k] == x);
                    }
                }
            }
            j = j + 1;
        }
        let ghost g0 = groups@;
        groups.push(members);
        proof {
            assert forall|j: int, x: int|
                0 <= j < owners@.len() && 0 <= x < a + 1 && (#[trigger] owners@[j])@ == (
                #[trigger] parent_keys@[x])@ implies exists|k: int|
                0 <= k < groups@[x]@.len() && groups@[x]@[k] == j by {
                if x < a {
                    assert(groups@[x] == g0[x]);
                    let k = choose|k: int| 0 <= k < g0[x]@.len() && g0[x]@[k] == j;
                    assert(groups@[x]@[k] == j);
                } else {
                    assert(groups@[x] == members);
                }
            }
        }
        a = a + 1;
    }
    groups
}

} // verus!
