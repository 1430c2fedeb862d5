//! What the JSON requests of all dialects share: a list of apps, read one
//! by one into requested components.

use crate::error::{ParseError, ParseErrorView};
use crate::json::{items_view, Json, JsonView};
use crate::omaha::v3;
use crate::omaha::v3::request::components_result;
use crate::omaha::v4;
use crate::update2::model::{components_view, RequestedComponent, RequestedComponentView};
use vstd::prelude::*;

verus! {

/// The form that the apps of a request have.
#[derive(Clone, Copy, Debug, PartialEq, Eq, Structural)]
pub enum RequestForm {
    /// The apps of protocols 3.0 and 3.1.
    V3,
    /// The apps of protocol 4.0.
    V4,
}

/// The component that one app asks about, read in its form.
pub open spec fn component(form: RequestForm, app: JsonView) -> Result<
    RequestedComponentView,
    ParseErrorView,
> {
    match form {
        RequestForm::V3 => v3::request::component(app),
        RequestForm::V4 => v4::request::component(app),
    }
}

/// The components of a list of apps, in their order; the first app that
/// cannot be read fails the whole list.
pub open spec fn components(form: RequestForm, apps: Seq<JsonView>) -> Result<
    Seq<RequestedComponentView>,
    ParseErrorView,
>
    decreases apps.len(),
{
    if apps.len() == 0 {
        Ok(Seq::empty())
    } else {
        match components(form, apps.drop_last()) {
            Err(e) => Err(e),
            Ok(before) => match component(form, apps.last()) {
                Err(e) => Err(e),
                Ok(c) => Ok(before.push(c)),
            },
        }
    }
}

/// Where the first `n` apps fail, the whole list fails in the same way.
proof fn lemma_components_fail(form: RequestForm, apps: Seq<JsonView>, n: int)
    requires
        0 <= n <= apps.len(),
        components(form, apps.take(n)) is Err,
    ensures
        components(form, apps) == components(form, apps.take(n)),
    decreases apps.len() - n,
{
    if n < apps.len() {
        assert(apps.take(n + 1).drop_last() =~= apps.take(n));
        lemma_components_fail(form, apps, n + 1);
    } else {
        assert(apps.take(n) =~= apps);
    }
}

fn component_of(form: RequestForm, app: &Json) -> (r: Result<RequestedComponent, ParseError>)
    ensures
        match r {
            Ok(c) => component(form, app@) == Ok::<RequestedComponentView, ParseErrorView>(c@),
            Err(e) => component(form, app@) == Err::<RequestedComponentView, ParseErrorView>(e@),
        },
{
    match form {
        RequestForm::V3 => v3::request::component_of(app),
        RequestForm::V4 => v4::request::component_of(app),
    }
}

/// Reads the components of a list of apps.
pub fn read_components(form: RequestForm, apps: &Vec<Json>) -> (r: Result<
    Vec<RequestedComponent>,
    ParseError,
>)
    ensures
        components_result(r) == components(form, items_view(apps@)),
{
    let ghost views = items_view(apps@);
    let mut out: Vec<RequestedComponent> = Vec::new();
    let mut i: usize = 0;
    assert(views.take(0) =~= Seq::empty());
    assert(components_view(out@) =~= Seq::empty());
    while i < apps.len()
        invariant
            i <= apps@.len(),
            views == items_view(apps@),
            components(form, views.take(i as int)) == Ok::<
                Seq<RequestedComponentView>,
                ParseErrorView,
            >(components_view(out@)),
        decreases apps@.len() - i,
    {
        let ghost before = components_view(out@);
        proof {
            assert(views.take(i + 1).drop_last() =~= views.take(i as int));
            assert(views.take(i + 1).last() == apps@[i as int]@);
        }
        match component_of(form, &apps[i]) {
            Ok(c) => {
                out.push(c);
                assert(components_view(out@) =~= before.push(c@));
            },
            Err(e) => {
                proof {
                    lemma_components_fail(form, views, i + 1);
                }
                return Err(e);
            },
        }
        i += 1;
    }
    assert(views.take(i as int) =~= views);
    Ok(out)
}

} // verus!
