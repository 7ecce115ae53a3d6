//! The computed side of tracker communication: the request URLs and
//! authorization header, the label filter string, the status-code policy
//! with its error descriptions, and collecting titles from responses.
//! The HTTP calls themselves run outside the library.

use vstd::prelude::*;
use vstd::string::StringExecFns;

use crate::issue::Response;
use crate::issue::ResponseView;
use crate::strutil::dec_spec;
use crate::strutil::u32_to_string;

verus! {

/// The issues endpoint for a remote `owner/repo`.
pub fn issues_url(remote: &str) -> (r: String)
    ensures
        r@ == "https://api.github.com/repos/"@ + remote@ + "/issues"@,
{
    let mut s = String::new();
    s.append("https://api.github.com/repos/");
    s.append(remote);
    s.append("/issues");
    proof {
        assert(s@ =~= "https://api.github.com/repos/"@ + remote@ + "/issues"@);
    }
    s
}

/// The browsable URL for a remote `owner/repo`.
pub fn remote_url(remote: &str) -> (r: String)
    ensures
        r@ == "https://github.com/"@ + remote@,
{
    let mut s = String::new();
    s.append("https://github.com/");
    s.append(remote);
    proof {
        assert(s@ =~= "https://github.com/"@ + remote@);
    }
    s
}

/// The authorization header value carrying an access token.
pub fn auth_header(token: &str) -> (r: String)
    ensures
        r@ == "token "@ + token@,
{
    let mut s = String::new();
    s.append("token ");
    s.append(token);
    proof {
        assert(s@ =~= "token "@ + token@);
    }
    s
}

/// The label filter naming the marker, as the tracker query expects it.
pub fn format_query_label(label: &str) -> (r: String)
    ensures
        r@ == "issue::"@ + label@,
{
    let mut s = String::new();
    s.append("issue::");
    s.append(label);
    proof {
        assert(s@ =~= "issue::"@ + label@);
    }
    s
}

/// Whether a response status code reports success: only 200 OK and
/// 201 Created do.
pub fn is_successful_status(code: u16) -> (r: bool)
    ensures
        r == (code == 200 || code == 201),
{
    code == 200 || code == 201
}

/// The error description for an unsuccessful response status code.
pub open spec fn status_message_spec(code: int) -> Seq<char> {
    if code == 401 {
        "Unathorized request. Make sure your access token is valid and you have pull access to the repository."@
    } else if code == 410 {
        "Issues are disabled in this repository."@
    } else if code == 403 {
        "You have reached the GitHub API rate limit. Please try again later."@
    } else if code == 404 {
        "Remote repository not found. If your repository is private check that your access token has the correct permissions."@
    } else if code == 422 {
        "Unable to process request."@
    } else {
        "Received unexpected status code "@ + dec_spec(code)
    }
}

/// Describes an unsuccessful response status code for the user.
pub fn status_error_message(code: u16) -> (r: String)
    ensures
        r@ == status_message_spec(code as int),
{
    if code == 401 {
        String::from_str(
            "Unathorized request. Make sure your access token is valid and you have pull access to the repository.",
        )
    } else if code == 410 {
        String::from_str("Issues are disabled in this repository.")
    } else if code == 403 {
        String::from_str("You have reached the GitHub API rate limit. Please try again later.")
    } else if code == 404 {
        String::from_str(
            "Remote repository not found. If your repository is private check that your access token has the correct permissions.",
        )
    } else if code == 422 {
        String::from_str("Unable to process request.")
    } else {
        let mut s = String::new();
        s.append("Received unexpected status code ");
        let num = u32_to_string(code as u32);
        s.append(num.as_str());
        proof {
            assert(s@ =~= "Received unexpected status code "@ + dec_spec(code as int));
        }
        s
    }
}

/// The titles at positions `i` and later of a response list, in order.
pub open spec fn titles_from(responses: Seq<ResponseView>, i: int) -> Seq<Seq<char>>
    decreases responses.len() - i,
{
    if i < 0 || i >= responses.len() {
        Seq::empty()
    } else {
        seq![responses[i].title] + titles_from(responses, i + 1)
    }
}

/// The titles of a response list, in order.
pub open spec fn titles_spec(responses: Seq<ResponseView>) -> Seq<Seq<char>> {
    titles_from(responses, 0)
}

/// Collects the titles of the issues the tracker reported, in order; the
/// result is the dedup snapshot the scan phase tests membership against.
pub fn collect_titles(responses: &Vec<Response>) -> (r: Vec<String>)
    ensures
        r.deep_view() == titles_spec(responses.deep_view()),
{
    let ghost responsesv = responses.deep_view();
    let mut titles: Vec<String> = Vec::new();
    let mut i: usize = 0;
    proof {
        assert(titles.deep_view() + titles_from(responsesv, 0) =~= titles_spec(responsesv));
    }
    while i < responses.len()
        invariant
            0 <= i <= responses.len(),
            responsesv == responses.deep_view(),
            titles.deep_view() + titles_from(responsesv, i as int) == titles_spec(responsesv),
        decreases responses.len() - i,
    {
        let ghost before = titles.deep_view();
        let title = responses[i].get_title();
        titles.push(title);
        proof {
            assert(titles.deep_view() =~= before + seq![responsesv[i as int].title]);
            assert(titles.deep_view() + titles_from(responsesv, i + 1) =~= titles_spec(
                responsesv,
            ));
        }
        i += 1;
    }
    proof {
        assert(titles.deep_view() =~= titles_spec(responsesv));
    }
    titles
}

} // verus!
