//! Inspectable SQL that cannot omit point-in-time training guards.

use vstd::prelude::*;
use vstd::string::StringExecFns;

use super::MaterializationError;
use crate::digest::utf8;

verus! {

/// A lower-case letter.
pub open spec fn is_lower(byte: u8) -> bool {
    97 <= byte <= 122
}

/// A lower-case letter, a digit or an underscore.
pub open spec fn is_identifier_byte(byte: u8) -> bool {
    is_lower(byte) || 48 <= byte <= 57 || byte == 95
}

/// Up to 128 identifier bytes, of which the first is a letter.
pub open spec fn is_sql_identifier(bytes: Seq<u8>) -> bool {
    &&& 0 < bytes.len() <= 128
    &&& is_lower(bytes[0])
    &&& forall|i: int| 0 <= i < bytes.len() ==> is_identifier_byte(#[trigger] bytes[i])
}

/// Whether a text can stand for a table without quotes.
pub fn valid_sql_identifier(value: &str) -> (answer: bool)
    ensures
        answer == is_sql_identifier(utf8(value@)),
{
    let bytes = value.as_bytes();
    if bytes.len() == 0 || bytes.len() > 128 {
        return false;
    }
    if bytes[0] < 97 || bytes[0] > 122 {
        return false;
    }
    let mut i: usize = 0;
    while i < bytes.len()
        invariant
            i <= bytes@.len(),
            bytes@ == utf8(value@),
            forall|k: int| 0 <= k < i ==> is_identifier_byte(#[trigger] bytes@[k]),
        decreases bytes.len() - i,
    {
        let byte: u8 = bytes[i];
        if !((97 <= byte && byte <= 122) || (48 <= byte && byte <= 57) || byte == 95) {
            return false;
        }
        i += 1;
    }
    true
}

/// The plan's text over the two tables: every feature row must have ended, been known, been
/// computed and been final by the prediction's time, and only its last revision counts.
pub open spec fn training_sql(prediction_table: Seq<char>, feature_table: Seq<char>) -> Seq<char> {
    "SELECT p.prediction_id, p.prediction_time_ns, f.* FROM "@ + prediction_table + " AS p JOIN "@
        + feature_table + " AS f ON f.entity_json = p.entity_json "@
        + "AND f.event_time_end_ns <= p.prediction_time_ns "@
        + "AND f.as_known_at_ns <= p.prediction_time_ns "@
        + "AND f.computed_at_ns <= p.prediction_time_ns "@
        + "AND f.finality_as_known_at_ns <= p.prediction_time_ns "@
        + "QUALIFY ROW_NUMBER() OVER (PARTITION BY p.prediction_id, f.feature_id, "@
        + "f.feature_version, f.entity_json, f.window_id, "@
        + "f.event_time_start_ns, f.event_time_end_ns ORDER BY f.revision DESC) = 1"@
}

/// A text stands somewhere in another.
pub open spec fn says(text: Seq<char>, part: Seq<char>) -> bool {
    exists|head: Seq<char>, tail: Seq<char>| text == #[trigger] (head + part + tail)
}

/// A text ends another.
pub open spec fn ends(text: Seq<char>, part: Seq<char>) -> bool {
    exists|head: Seq<char>| text == #[trigger] (head + part)
}

/// For each prediction, and for each identity of an observation, the query keeps the first row in
/// descending order of revisions: the row of the greatest revision that its guards let through.
pub open spec fn keeps_the_latest_revision(sql: Seq<char>) -> bool {
    ends(
        sql,
        "PARTITION BY p.prediction_id, f.feature_id, f.feature_version, f.entity_json, f.window_id, f.event_time_start_ns, f.event_time_end_ns ORDER BY f.revision DESC) = 1"@,
    )
}

/// The query joins a prediction with the rows of its own entity that had ended, been known, been
/// computed and been final by the time of the prediction.
pub open spec fn guards_every_time(sql: Seq<char>) -> bool {
    says(
        sql,
        " AS f ON f.entity_json = p.entity_json AND f.event_time_end_ns <= p.prediction_time_ns AND f.as_known_at_ns <= p.prediction_time_ns AND f.computed_at_ns <= p.prediction_time_ns AND f.finality_as_known_at_ns <= p.prediction_time_ns QUALIFY ROW_NUMBER() OVER ("@,
    )
}

/// A training query over two tables.
#[derive(Debug)]
pub struct PointInTimeTrainingPlan {
    sql: String,
}

impl View for PointInTimeTrainingPlan {
    type V = Seq<char>;

    closed spec fn view(&self) -> Seq<char> {
        self.sql@
    }
}

impl PointInTimeTrainingPlan {
    pub fn try_new(prediction_table: &str, feature_table: &str) -> (result: Result<
        Self,
        MaterializationError,
    >)
        ensures
            result is Ok <==> is_sql_identifier(utf8(prediction_table@)) && is_sql_identifier(
                utf8(feature_table@),
            ),
            result is Ok ==> result->Ok_0@ == training_sql(prediction_table@, feature_table@),
            result is Ok ==> keeps_the_latest_revision(result->Ok_0@) && guards_every_time(
                result->Ok_0@,
            ),
            result is Err ==> result->Err_0 == MaterializationError::InvalidQueryPlan,
    {
        if !valid_sql_identifier(prediction_table) || !valid_sql_identifier(feature_table) {
            return Err(MaterializationError::InvalidQueryPlan);
        }
        let mut sql: String =
            "SELECT p.prediction_id, p.prediction_time_ns, f.* FROM ".to_owned();
        sql.append(prediction_table);
        sql.append(" AS p JOIN ");
        sql.append(feature_table);
        sql.append(" AS f ON f.entity_json = p.entity_json ");
        sql.append("AND f.event_time_end_ns <= p.prediction_time_ns ");
        sql.append("AND f.as_known_at_ns <= p.prediction_time_ns ");
        sql.append("AND f.computed_at_ns <= p.prediction_time_ns ");
        sql.append("AND f.finality_as_known_at_ns <= p.prediction_time_ns ");
        sql.append("QUALIFY ROW_NUMBER() OVER (PARTITION BY p.prediction_id, f.feature_id, ");
        sql.append("f.feature_version, f.entity_json, f.window_id, ");
        sql.append("f.event_time_start_ns, f.event_time_end_ns ORDER BY f.revision DESC) = 1");
        proof {
            lemma_plans_keep_the_latest_revision(prediction_table@, feature_table@);
        }
        Ok(PointInTimeTrainingPlan { sql })
    }

    pub fn sql(&self) -> (sql: &str)
        ensures
            sql@ == self@,
    {
        self.sql.as_str()
    }
}

/// The plan keeps, for each prediction and each observation's identity, the row of the greatest
/// revision among those that its guards let through. The guards are those of the selection at the
/// time of the prediction, and the plan reads the two tables that it is made for.
pub proof fn lemma_plans_keep_the_latest_revision(
    prediction_table: Seq<char>,
    feature_table: Seq<char>,
)
    ensures
        ends(training_sql(prediction_table, feature_table), "ORDER BY f.revision DESC) = 1"@),
        keeps_the_latest_revision(training_sql(prediction_table, feature_table)),
        guards_every_time(training_sql(prediction_table, feature_table)),
        exists|rest: Seq<char>|
            training_sql(prediction_table, feature_table) == #[trigger] (
            "SELECT p.prediction_id, p.prediction_time_ns, f.* FROM "@ + rest),
        says(
            training_sql(prediction_table, feature_table),
            "FROM "@ + prediction_table + " AS p JOIN "@ + feature_table + " AS f ON "@,
        ),
{
    let sql = training_sql(prediction_table, feature_table);
    let tables = "SELECT p.prediction_id, p.prediction_time_ns, f.* FROM "@ + prediction_table
        + " AS p JOIN "@ + feature_table;
    let joined = " AS f ON f.entity_json = p.entity_json "@
        + "AND f.event_time_end_ns <= p.prediction_time_ns "@
        + "AND f.as_known_at_ns <= p.prediction_time_ns "@
        + "AND f.computed_at_ns <= p.prediction_time_ns "@
        + "AND f.finality_as_known_at_ns <= p.prediction_time_ns "@;
    let opened = "QUALIFY ROW_NUMBER() OVER (PARTITION BY p.prediction_id, f.feature_id, "@;
    let last = "f.event_time_start_ns, f.event_time_end_ns ORDER BY f.revision DESC) = 1"@;
    let ranked = "f.feature_version, f.entity_json, f.window_id, "@ + last;
    assert(sql =~= tables + joined + opened + ranked);
    reveal_strlit("SELECT p.prediction_id, p.prediction_time_ns, f.* FROM ");
    reveal_strlit(" AS f ON f.entity_json = p.entity_json ");
    reveal_strlit("AND f.event_time_end_ns <= p.prediction_time_ns ");
    reveal_strlit("AND f.as_known_at_ns <= p.prediction_time_ns ");
    reveal_strlit("AND f.computed_at_ns <= p.prediction_time_ns ");
    reveal_strlit("AND f.finality_as_known_at_ns <= p.prediction_time_ns ");
    reveal_strlit("QUALIFY ROW_NUMBER() OVER (PARTITION BY p.prediction_id, f.feature_id, ");
    reveal_strlit("f.feature_version, f.entity_json, f.window_id, ");
    reveal_strlit("f.event_time_start_ns, f.event_time_end_ns ORDER BY f.revision DESC) = 1");
    reveal_strlit("ORDER BY f.revision DESC) = 1");
    reveal_strlit("FROM ");
    reveal_strlit(" AS f ON ");
    reveal_strlit(
        "PARTITION BY p.prediction_id, f.feature_id, f.feature_version, f.entity_json, f.window_id, f.event_time_start_ns, f.event_time_end_ns ORDER BY f.revision DESC) = 1",
    );
    reveal_strlit(
        " AS f ON f.entity_json = p.entity_json AND f.event_time_end_ns <= p.prediction_time_ns AND f.as_known_at_ns <= p.prediction_time_ns AND f.computed_at_ns <= p.prediction_time_ns AND f.finality_as_known_at_ns <= p.prediction_time_ns QUALIFY ROW_NUMBER() OVER (",
    );
    // The ranking clause closes the text.
    let rank = "ORDER BY f.revision DESC) = 1"@;
    assert(ranked.skip(ranked.len() - rank.len()) =~= rank);
    assert(sql =~= (tables + joined + opened + ranked.take(ranked.len() - rank.len())) + rank);
    // It ranks the revisions of one identity for one prediction.
    let word = "QUALIFY ROW_NUMBER() OVER ("@;
    reveal_strlit("QUALIFY ROW_NUMBER() OVER (");
    let partition =
        "PARTITION BY p.prediction_id, f.feature_id, f.feature_version, f.entity_json, f.window_id, f.event_time_start_ns, f.event_time_end_ns ORDER BY f.revision DESC) = 1"@;
    assert(opened.take(word.len() as int) =~= word);
    assert(opened.skip(word.len() as int) + ranked =~= partition);
    assert(sql =~= (tables + joined + word) + partition);
    // Every guard stands before it.
    let guards =
        " AS f ON f.entity_json = p.entity_json AND f.event_time_end_ns <= p.prediction_time_ns AND f.as_known_at_ns <= p.prediction_time_ns AND f.computed_at_ns <= p.prediction_time_ns AND f.finality_as_known_at_ns <= p.prediction_time_ns QUALIFY ROW_NUMBER() OVER ("@;
    assert(joined + word =~= guards);
    assert(sql =~= tables + guards + partition);
    // The tables stand in their places.
    let from = "FROM "@;
    let head = "SELECT p.prediction_id, p.prediction_time_ns, f.* FROM "@;
    let on = " AS f ON "@;
    assert(head.skip(head.len() - from.len()) =~= from);
    assert(joined.take(on.len() as int) =~= on);
    let part = from + prediction_table + " AS p JOIN "@ + feature_table + on;
    assert(sql =~= head.take(head.len() - from.len()) + part + (joined.skip(on.len() as int)
        + opened + ranked));
    // It selects the prediction and everything of the row.
    assert(sql =~= head + (prediction_table + " AS p JOIN "@ + feature_table + joined + opened
        + ranked));
}

/// An identifier starts with a small letter and goes on with small letters, digits and
/// underscores, at most a hundred and twenty-eight in all; nothing else can be put into a query.
pub proof fn lemma_identifiers_hold_no_other_characters(bytes: Seq<u8>)
    ensures
        is_sql_identifier(bytes) <==> {
            &&& 1 <= bytes.len() <= 128
            &&& 97 <= bytes[0] <= 122
            &&& forall|i: int|
                #![trigger bytes[i]]
                0 <= i < bytes.len() ==> 97 <= bytes[i] <= 122 || 48 <= bytes[i] <= 57 || bytes[i]
                    == 95
        },
{
}

} // verus!
