use vstd::prelude::*;

use crate::database::QueryResult;
use crate::listing::texts;
use crate::message::concat3;

verus! {

/// The JSON and the CSV file that results saved at `timestamp` go to.
pub open spec fn spec_save_paths(timestamp: Seq<char>) -> (Seq<char>, Seq<char>) {
    ("results_"@ + timestamp + ".json"@, "results_"@ + timestamp + ".csv"@)
}

/// The names of the JSON and the CSV file for results saved at `timestamp`
/// (`YYYYMMDD_HHMMSS`).
pub fn save_paths(timestamp: &str) -> (paths: (String, String))
    ensures
        (paths.0@, paths.1@) == spec_save_paths(timestamp@),
{
    (concat3("results_", timestamp, ".json"), concat3("results_", timestamp, ".csv"))
}

/// What saving reports on success: both file names.
pub fn saved_files_message(json_path: &str, csv_path: &str) -> (m: String)
    ensures
        m@ == json_path@ + " and "@ + csv_path@,
{
    concat3(json_path, " and ", csv_path)
}

/// The texts of a list of rows.
pub open spec fn row_texts(rows: Seq<Vec<String>>) -> Seq<Seq<Seq<char>>> {
    rows.map_values(|r: Vec<String>| texts(r@))
}

/// The records of the CSV file for `result`: the column names, then each row in order.
pub open spec fn spec_csv_records(result: QueryResult) -> Seq<Seq<Seq<char>>> {
    seq![texts(result.columns@)] + row_texts(result.rows@)
}

/// A copy of a list of strings.
pub fn copy_strings(v: &Vec<String>) -> (r: Vec<String>)
    ensures
        texts(r@) == texts(v@),
{
    let mut r: Vec<String> = Vec::new();
    for i in 0..v.len()
        invariant
            texts(r@) == texts(v@).take(i as int),
    {
        let ghost before = r@;
        r.push(v[i].clone());
        proof {
            assert(texts(r@) =~= texts(before).push(v@[i as int]@));
            assert(texts(v@).take(i + 1) =~= texts(v@).take(i as int).push(v@[i as int]@));
        }
    }
    proof {
        assert(texts(v@).take(v@.len() as int) =~= texts(v@));
    }
    r
}

/// The records that the CSV file for `result` holds, in order: the header, then the rows.
pub fn csv_records(result: &QueryResult) -> (records: Vec<Vec<String>>)
    ensures
        row_texts(records@) == spec_csv_records(*result),
{
    let mut records: Vec<Vec<String>> = Vec::new();
    records.push(copy_strings(&result.columns));
    proof {
        assert(row_texts(records@) =~= seq![texts(result.columns@)] + row_texts(result.rows@).take(0));
    }
    for i in 0..result.rows.len()
        invariant
            row_texts(records@) == seq![texts(result.columns@)] + row_texts(result.rows@).take(
                i as int,
            ),
    {
        let row = copy_strings(&result.rows[i]);
        let ghost before = records@;
        records.push(row);
        proof {
            let all = row_texts(result.rows@);
            assert(row_texts(records@) =~= row_texts(before).push(texts(result.rows@[i as int]@)));
            assert(all.take(i + 1) =~= all.take(i as int).push(all[i as int]));
            assert(row_texts(records@) =~= seq![texts(result.columns@)] + all.take(i + 1));
        }
    }
    proof {
        assert(row_texts(result.rows@).take(result.rows@.len() as int) =~= row_texts(result.rows@));
    }
    records
}

} // verus!
