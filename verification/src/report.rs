//! The daily report: rendering the HTML table over the collected records,
//! and planning one report cycle — abort on a failed query, render, send,
//! and only then delete exactly the batch that was read.

use vstd::prelude::*;
use vstd::string::StringExecFns;

use crate::numeric::i64_dec_str;
use crate::numeric::i64_to_string;
use crate::records::S3ObjectInfo;
use crate::records::S3ObjectInfoV;

verus! {

/// Everything of the document before the first data row: the style block,
/// the heading, and the header row of the table.
pub open spec fn spec_report_header() -> Seq<char> {
    "<!DOCTYPE html><html><head><style>table, th, td { border: 1px solid black; border-collapse: collapse; } th, td { padding: 15px; }</style></head><body><h1>Daily S3 upload report </h1><table><tr><th>Object Name</th><th>Object Type</th><th>Object Size</th><th>S3 URI</th></tr>"@
}

pub open spec fn spec_report_footer() -> Seq<char> {
    "</table></body></html>"@
}

/// One data row: name, type, decimal size, and storage URI, in that order.
pub open spec fn spec_report_row(v: S3ObjectInfoV) -> Seq<char> {
    "<tr><td>"@ + v.object_name + "</td><td>"@ + v.object_type + "</td><td>"@ + i64_dec_str(
        v.object_size,
    ) + "</td><td>"@ + v.s3_uri + "</td></tr>"@
}

/// The data rows, one per record, in the order the records were read.
pub open spec fn spec_report_rows(rs: Seq<S3ObjectInfoV>) -> Seq<char>
    decreases rs.len(),
{
    if rs.len() == 0 {
        Seq::empty()
    } else {
        spec_report_rows(rs.drop_last()) + spec_report_row(rs.last())
    }
}

/// The whole report: header, one row per record in supplied order, footer.
pub open spec fn spec_report_html(rs: Seq<S3ObjectInfoV>) -> Seq<char> {
    spec_report_header() + spec_report_rows(rs) + spec_report_footer()
}

/// Renders the report document for the given records; an empty list yields
/// the header row and no data rows.
#[verifier::loop_isolation(false)]
pub fn render_report_html(records: &Vec<S3ObjectInfo>) -> (r: String)
    ensures
        r@ == spec_report_html(records.deep_view()),
{
    let ghost dv = records.deep_view();
    let mut out = String::new();
    out.append(
        "<!DOCTYPE html><html><head><style>table, th, td { border: 1px solid black; border-collapse: collapse; } th, td { padding: 15px; }</style></head><body><h1>Daily S3 upload report </h1><table><tr><th>Object Name</th><th>Object Type</th><th>Object Size</th><th>S3 URI</th></tr>",
    );
    let mut i: usize = 0;
    while i < records.len()
        invariant
            i <= records.len(),
            out@ == spec_report_header() + spec_report_rows(dv.take(i as int)),
        decreases records.len() - i,
    {
        let rec = &records[i];
        out.append("<tr><td>");
        out.append(rec.object_name.as_str());
        out.append("</td><td>");
        out.append(rec.object_type.as_str());
        out.append("</td><td>");
        let size_str = i64_to_string(rec.object_size);
        out.append(size_str.as_str());
        out.append("</td><td>");
        out.append(rec.s3_uri.as_str());
        out.append("</td></tr>");
        proof {
            assert(dv.take(i as int + 1).drop_last() =~= dv.take(i as int));
            assert(dv.take(i as int + 1).last() == dv[i as int]);
            assert(out@ =~= spec_report_header() + spec_report_rows(dv.take(i as int + 1)));
        }
        i = i + 1;
    }
    out.append("</table></body></html>");
    proof {
        assert(dv.take(records@.len() as int) =~= dv);
        assert(out@ =~= spec_report_html(dv));
    }
    out
}

/// What one report cycle will do once the query came back: the rendered
/// document, and the sort keys of exactly the batch that was read.
pub struct ReportPlan {
    pub html: String,
    pub delete_uris: Vec<String>,
}

/// Plans one report cycle. A failed query aborts the cycle: no document,
/// nothing deleted, the records stay for the next tick. A successful query
/// yields the rendered document and the keys of the batch just read, which
/// are deleted only after a confirmed send.
#[verifier::loop_isolation(false)]
pub fn plan_report_cycle(query_result: Option<Vec<S3ObjectInfo>>) -> (r: Option<ReportPlan>)
    ensures
        match r {
            Some(plan) => {
                &&& query_result matches Some(records)
                &&& plan.html@ == spec_report_html(records.deep_view())
                &&& plan.delete_uris@.len() == records@.len()
                &&& forall|j: int|
                    0 <= j < records@.len() ==> plan.delete_uris.deep_view()[j]
                        == records.deep_view()[j].s3_uri
            },
            None => query_result is None,
        },
{
    match query_result {
        None => None,
        Some(records) => {
            let ghost dv = records.deep_view();
            let html = render_report_html(&records);
            let mut delete_uris: Vec<String> = Vec::new();
            let mut i: usize = 0;
            while i < records.len()
                invariant
                    i <= records.len(),
                    delete_uris@.len() == i,
                    forall|j: int|
                        0 <= j < i ==> delete_uris.deep_view()[j] == dv[j].s3_uri,
                decreases records.len() - i,
            {
                let ghost pre = delete_uris.deep_view();
                delete_uris.push(records[i].s3_uri.clone());
                proof {
                    assert(delete_uris.deep_view()[i as int] == records@[i as int].s3_uri@);
                    assert(forall|j: int|
                        0 <= j < i ==> #[trigger] delete_uris.deep_view()[j] == pre[j]);
                }
                i = i + 1;
            }
            Some(ReportPlan { html, delete_uris })
        },
    }
}

/// How many per-item deletions of a batch failed; deletion is best-effort,
/// failures are counted and reported, never propagated.
pub open spec fn spec_count_failures(rs: Seq<bool>) -> int
    decreases rs.len(),
{
    if rs.len() == 0 {
        0int
    } else {
        spec_count_failures(rs.drop_last()) + if rs.last() {
            0int
        } else {
            1int
        }
    }
}

#[verifier::loop_isolation(false)]
pub fn count_failures(results: &Vec<bool>) -> (n: usize)
    ensures
        n as int == spec_count_failures(results@),
{
    let mut n: usize = 0;
    let mut i: usize = 0;
    while i < results.len()
        invariant
            i <= results.len(),
            n <= i,
            n as int == spec_count_failures(results@.take(i as int)),
        decreases results.len() - i,
    {
        if !results[i] {
            n = n + 1;
        }
        proof {
            assert(results@.take(i as int + 1).drop_last() =~= results@.take(i as int));
        }
        i = i + 1;
    }
    proof {
        assert(results@.take(results@.len() as int) =~= results@);
    }
    n
}

} // verus!
