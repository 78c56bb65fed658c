use vstd::prelude::*;
use vstd::string::StringExecFns;
use crate::errors::{DiscoveryError, HashingError, SyncError};
use crate::identity::Identity;
use crate::json::{append_dec, append_json_string, dec_rep, json_string};

verus! {

/// The JSON object one identity contributes to the payload.
pub open spec fn identity_json(x: Identity) -> Seq<char> {
    "{\"id\":"@ + json_string(x.id@) + ",\"label\":"@ + opt_string_json(x.label) + ",\"last_seen\":"@
        + opt_u64_json(x.last_seen) + ",\"source\":"@ + json_string(x.source@) + "}"@
}

pub open spec fn opt_string_json(o: Option<String>) -> Seq<char> {
    match o {
        Some(s) => json_string(s@),
        None => "null"@,
    }
}

pub open spec fn opt_u64_json(o: Option<u64>) -> Seq<char> {
    match o {
        Some(n) => dec_rep(n as nat),
        None => "null"@,
    }
}

/// The comma-separated JSON objects of the identity list, in order.
pub open spec fn identities_json(ids: Seq<Identity>) -> Seq<char>
    decreases ids.len(),
{
    if ids.len() == 0 {
        Seq::empty()
    } else if ids.len() == 1 {
        identity_json(ids[0])
    } else {
        identity_json(ids[0]) + ","@ + identities_json(ids.drop_first())
    }
}

/// The whole registration payload: the device fingerprint and the full
/// identity list, as the registry's bulk-import body expects them. There is
/// no partial payload: this is the only body a sync ever sends.
pub open spec fn payload_json(fingerprint: Seq<char>, ids: Seq<Identity>) -> Seq<char> {
    "{\"device_fingerprint\":"@ + json_string(fingerprint) + ",\"steam_users\":["@ + identities_json(
        ids,
    ) + "]}"@
}

/// An upload, assembled and checked but not yet sent: the endpoint URL and
/// the JSON body.
#[derive(Debug)]
pub struct PreparedUpload {
    pub url: String,
    pub body: String,
}

/// An HTTP response as the transport reports it: status code and full body.
#[derive(Debug, PartialEq, Eq)]
pub struct HttpResponse {
    pub status: u16,
    pub body: String,
}

/// The outcome a completed sync reports: the registry's status and body,
/// whatever the status was.
#[derive(Debug, PartialEq, Eq)]
pub struct SyncReport {
    pub status: u16,
    pub body: String,
}

impl SyncReport {
    /// Whether the registry answered with a success status. A failure status
    /// is still a completed, reported sync, never an error of this library.
    pub fn is_success_status(&self) -> (b: bool)
        ensures
            b == (200 <= self.status < 300),
    {
        200 <= self.status && self.status < 300
    }
}

fn append_identity_json(out: &mut String, x: &Identity)
    ensures
        final(out)@ == old(out)@ + identity_json(*x),
{
    out.append("{\"id\":");
    append_json_string(out, x.id.as_str());
    out.append(",\"label\":");
    match &x.label {
        Some(s) => append_json_string(out, s.as_str()),
        None => out.append("null"),
    }
    out.append(",\"last_seen\":");
    match x.last_seen {
        Some(n) => append_dec(out, n),
        None => out.append("null"),
    }
    out.append(",\"source\":");
    append_json_string(out, x.source.as_str());
    out.append("}");
    proof {
        assert(out@ =~= old(out)@ + identity_json(*x));
    }
}

proof fn lemma_identities_json_snoc(ids: Seq<Identity>, x: Identity)
    ensures
        identities_json(ids.push(x)) == if ids.len() == 0 {
            identity_json(x)
        } else {
            identities_json(ids) + ","@ + identity_json(x)
        },
    decreases ids.len(),
{
    if ids.len() == 0 {
        assert(ids.push(x)[0] == x);
    } else {
        assert(ids.push(x).drop_first() =~= ids.drop_first().push(x));
        lemma_identities_json_snoc(ids.drop_first(), x);
        if ids.len() == 1 {
            assert(identities_json(ids.push(x)) == identity_json(ids[0]) + ","@ + identities_json(
                ids.drop_first().push(x),
            ));
            assert(identities_json(ids.drop_first().push(x)) == identity_json(x));
        } else {
            assert(identities_json(ids.push(x)) =~= identities_json(ids) + ","@ + identity_json(x));
        }
    }
}

fn append_identities_json(out: &mut String, ids: &Vec<Identity>)
    ensures
        final(out)@ == old(out)@ + identities_json(ids@),
{
    let n = ids.len();
    let mut i: usize = 0;
    while i < n
        invariant
            0 <= i <= n,
            n == ids@.len(),
            out@ == old(out)@ + identities_json(ids@.subrange(0, i as int)),
        decreases n - i,
    {
        if i > 0 {
            out.append(",");
        }
        append_identity_json(out, &ids[i]);
        proof {
            let prefix = ids@.subrange(0, i as int);
            assert(prefix.push(ids@[i as int]) =~= ids@.subrange(0, i as int + 1));
            lemma_identities_json_snoc(prefix, ids@[i as int]);
            assert(out@ =~= old(out)@ + identities_json(ids@.subrange(0, i as int + 1)));
        }
        i = i + 1;
    }
    proof {
        assert(ids@.subrange(0, ids@.len() as int) =~= ids@);
    }
}

/// Assembles the one upload a sync performs. A missing base URL is the
/// configuration error and fails here, before anything could be sent;
/// otherwise the endpoint URL and the full JSON payload are built and nothing
/// has been sent yet.
pub fn prepare_upload(base_url: &Option<String>, fingerprint: &String, identities: &Vec<Identity>)
    -> (r: Result<PreparedUpload, SyncError>)
    ensures
        match r {
            Ok(u) => (base_url matches Some(b) && u.url@ == b@ + "/steam/bulk-import"@) && u.body@
                == payload_json(fingerprint@, identities@),
            Err(e) => base_url is None && (e matches SyncError::Config(m) && m@
                == "registry base URL is not configured"@),
        },
{
    match base_url {
        None => Err(SyncError::Config(String::from_str("registry base URL is not configured"))),
        Some(b) => {
            let mut url = b.clone();
            url.append("/steam/bulk-import");
            let mut body = String::new();
            body.append("{\"device_fingerprint\":");
            append_json_string(&mut body, fingerprint.as_str());
            body.append(",\"steam_users\":[");
            append_identities_json(&mut body, identities);
            body.append("]}");
            proof {
                assert(body@ =~= payload_json(fingerprint@, identities@));
            }
            Ok(PreparedUpload { url, body })
        },
    }
}

/// Assembles the upload of one full sync from the outcomes the outside world
/// supplied. The first failure short-circuits in the order the sync gathers
/// its parts — fingerprint, identity list, configuration — so no partial
/// payload ever exists, and a sync that cannot be configured fails before
/// anything could be sent.
pub fn build_upload(
    base_url: &Option<String>,
    fingerprint: Result<String, HashingError>,
    identities: Result<Vec<Identity>, DiscoveryError>,
) -> (r: Result<PreparedUpload, SyncError>)
    ensures
        match r {
            Ok(u) => (fingerprint matches Ok(f) && (identities matches Ok(ids) && (base_url
                matches Some(b) && u.url@ == b@ + "/steam/bulk-import"@ && u.body@ == payload_json(
                f@,
                ids@,
            )))),
            Err(e) => match e {
                SyncError::Fingerprint(h) => fingerprint == Err::<String, HashingError>(h),
                SyncError::Discovery(d) => fingerprint is Ok && identities == Err::<
                    Vec<Identity>,
                    DiscoveryError,
                >(d),
                SyncError::Config(m) => fingerprint is Ok && identities is Ok && base_url is None
                    && m@ == "registry base URL is not configured"@,
                _ => false,
            },
        },
{
    match fingerprint {
        Err(h) => Err(SyncError::Fingerprint(h)),
        Ok(f) => match identities {
            Err(d) => Err(SyncError::Discovery(d)),
            Ok(ids) => prepare_upload(base_url, &f, &ids),
        },
    }
}

/// Interprets what the transport brought back from the one upload attempt.
/// Any HTTP response, success status or not, is a completed sync reported
/// with its status and body; only the absence of a response is an error.
pub fn finish_upload(outcome: Result<HttpResponse, String>) -> (r: Result<SyncReport, SyncError>)
    ensures
        match outcome {
            Ok(resp) => r == Ok::<SyncReport, SyncError>(
                SyncReport { status: resp.status, body: resp.body },
            ),
            Err(m) => r == Err::<SyncReport, SyncError>(SyncError::Transport(m)),
        },
{
    match outcome {
        Ok(resp) => Ok(SyncReport { status: resp.status, body: resp.body }),
        Err(m) => Err(SyncError::Transport(m)),
    }
}

} // verus!
