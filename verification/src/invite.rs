use vstd::prelude::*;
use vstd::string::StringExecFns;
use vstd::string::StringSliceAdditionalSpecFns;
use crate::primitives::percent_encode;
use crate::primitives::percent_encoded;
use crate::text::pairs_view;
use crate::text::same_text;

verus! {

/// The names of the fields whose value is `true`, in the order of the form.
pub open spec fn selected(form: Seq<(Seq<char>, Seq<char>)>) -> Seq<Seq<char>>
    decreases form.len(),
{
    if form.len() == 0 {
        Seq::empty()
    } else if form.last().1 == "true"@ {
        selected(form.drop_last()).push(form.last().0)
    } else {
        selected(form.drop_last())
    }
}

/// The parts in one text, with a comma between each two.
pub open spec fn comma_joined(parts: Seq<Seq<char>>) -> Seq<char>
    decreases parts.len(),
{
    if parts.len() == 0 {
        Seq::empty()
    } else if parts.len() == 1 {
        parts[0]
    } else {
        comma_joined(parts.drop_last()) + ","@ + parts.last()
    }
}

/// The services that an invite is made for: the names of the fields of the
/// form that are set to `true`, joined by commas.
pub fn selected_services(form: &Vec<(String, String)>) -> (r: String)
    ensures
        r@ == comma_joined(selected(pairs_view(form@))),
{
    let ghost whole = pairs_view(form@);
    let mut joined = String::new();
    let mut count: usize = 0;
    let mut i: usize = 0;
    assert(whole.subrange(0, 0) =~= Seq::empty());
    while i < form.len()
        invariant
            i <= form.len(),
            whole == pairs_view(form@),
            count == selected(whole.subrange(0, i as int)).len(),
            count <= i,
            joined@ == comma_joined(selected(whole.subrange(0, i as int))),
        decreases form.len() - i,
    {
        let ghost before = whole.subrange(0, i as int);
        let ghost upto = whole.subrange(0, i + 1);
        assert(upto.drop_last() =~= before);
        assert(upto.last() == (form@[i as int].0@, form@[i as int].1@));
        if same_text(form[i].1.as_str(), "true") {
            let ghost chosen = selected(upto);
            assert(chosen.drop_last() =~= selected(before));
            if count > 0 {
                joined.append(",");
            }
            joined.append(form[i].0.as_str());
            count += 1;
        }
        i += 1;
    }
    assert(whole.subrange(0, form.len() as int) =~= whole);
    joined
}

/// Where the invite page sends the browser after an operation: to `done`
/// where it went well, and back to the page with the percent-encoded message
/// as its `error` parameter where it failed.
pub open spec fn location_spec(done: Seq<char>, failure: Option<Seq<u8>>) -> Seq<char> {
    match failure {
        None => done,
        Some(message) => "/admin/invite?error="@ + percent_encoded(message),
    }
}

/// Executable form of [`location_spec`].
pub fn location_after(done: &str, failure: Option<&str>) -> (r: String)
    ensures
        r@ == location_spec(
            done@,
            match failure {
                Some(message) => Some(message.spec_bytes()),
                None => None,
            },
        ),
{
    match failure {
        None => done.to_owned(),
        Some(message) => {
            let mut location = "/admin/invite?error=".to_owned();
            let encoded = percent_encode(message);
            location.append(encoded.as_str());
            location
        },
    }
}

/// Where the browser goes after an invite was created, or could not be.
pub fn location_after_create(failure: Option<&str>) -> (r: String)
    ensures
        r@ == location_spec(
            "/admin/invite#added"@,
            match failure {
                Some(message) => Some(message.spec_bytes()),
                None => None,
            },
        ),
{
    location_after("/admin/invite#added", failure)
}

/// Where the browser goes after an invite was deleted, or could not be.
pub fn location_after_delete(failure: Option<&str>) -> (r: String)
    ensures
        r@ == location_spec(
            "/admin/invite#removed"@,
            match failure {
                Some(message) => Some(message.spec_bytes()),
                None => None,
            },
        ),
{
    location_after("/admin/invite#removed", failure)
}

} // verus!
