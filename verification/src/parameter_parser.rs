//! Scanning a token list for parameters: the last tokens, one for each
//! declared parameter.

use vstd::prelude::*;
use crate::error::{result_view, ClError, ClErrorView};
use crate::parameter_args::{ClParameter, ClParameterView};

verus! {

/// What scanning `args` against the declarations `parameters` gives.
///
/// The first token is the program's name and is no value. Where the tokens
/// behind it are fewer than the declarations, the scan fails. Otherwise the
/// last tokens, as many as there are declarations, are bound in order: the
/// declaration at `k` takes the token at `k` of that window.
pub open spec fn scan_parameters(args: Seq<Seq<char>>, parameters: Seq<ClParameterView>) -> Result<
    Seq<ClParameterView>,
    ClErrorView,
> {
    if args.len() - 1 < parameters.len() {
        Err(ClErrorView::TooFewArguments)
    } else {
        Ok(
            Seq::new(
                parameters.len(),
                |k: int|
                    ClParameterView {
                        data: args[args.len() - parameters.len() + k],
                        ..parameters[k]
                    },
            ),
        )
    }
}

/// Scans `args` for the parameters that `expected_parameters` declares.
///
/// The parameters are the last tokens of `args`, in the order of their
/// declarations. Each declaration is copied and the copy given its token as
/// value; `expected_parameters` is left as it was. Whether a token of that
/// window is a flag or the payload of one is not looked at.
///
/// Fails with `ClError::TooFewArguments` where `args`, its first token not
/// counted, has fewer tokens than there are declarations.
pub fn parse_for_parameters(args: &[String], expected_parameters: &[ClParameter]) -> (found: Result<
    Vec<ClParameter>,
    ClError,
>)
    ensures
        result_view(found) == scan_parameters(
            args.deep_view(),
            expected_parameters.deep_view(),
        ),
        found is Ok <==> expected_parameters.len() < args.len(),
        found matches Ok(bound) ==> bound.len() == expected_parameters.len() && forall|k: int|
            0 <= k < bound.len() ==> (#[trigger] bound[k])@ == (ClParameterView {
                data: args[args.len() - expected_parameters.len() + k]@,
                ..expected_parameters[k]@
            }),
{
    let count = expected_parameters.len();
    if args.len() == 0 || args.len() - 1 < count {
        return Err(ClError::TooFewArguments);
    }
    let first = args.len() - count;
    let mut results: Vec<ClParameter> = Vec::new();
    let mut k: usize = 0;
    while k < count
        invariant
            k <= count,
            count == expected_parameters.len(),
            first + count == args.len(),
            results.len() == k,
            forall|j: int|
                0 <= j < k ==> results[j]@ == (ClParameterView {
                    data: args[first + j]@,
                    ..expected_parameters[j]@
                }),
        decreases count - k,
    {
        let mut parameter = expected_parameters[k].clone();
        parameter.set_data(args[first + k].as_str());
        results.push(parameter);
        k = k + 1;
    }
    assert(results.deep_view() =~= scan_parameters(
        args.deep_view(),
        expected_parameters.deep_view(),
    )->Ok_0);
    Ok(results)
}

/// Scanning is repeatable: two scans of the same tokens against the same
/// declarations come out equal.
pub proof fn lemma_scan_parameters_repeatable(
    args: &[String],
    expected_parameters: &[ClParameter],
    first: Result<Vec<ClParameter>, ClError>,
    second: Result<Vec<ClParameter>, ClError>,
)
    requires
        result_view(first) == scan_parameters(args.deep_view(), expected_parameters.deep_view()),
        result_view(second) == scan_parameters(args.deep_view(), expected_parameters.deep_view()),
    ensures
        result_view(first) == result_view(second),
        first is Ok <==> second is Ok,
{
}

/// Scanning is idempotent: what a scan bound can itself be scanned against
/// the same tokens, and comes out as it went in.
pub proof fn lemma_scan_parameters_idempotent(
    args: Seq<Seq<char>>,
    parameters: Seq<ClParameterView>,
)
    ensures
        scan_parameters(args, parameters) matches Ok(bound) ==> scan_parameters(args, bound)
            == Ok::<Seq<ClParameterView>, ClErrorView>(bound),
{
    if scan_parameters(args, parameters) is Ok {
        let bound = scan_parameters(args, parameters)->Ok_0;
        assert(scan_parameters(args, bound)->Ok_0 =~= bound);
    }
}

/// A scan binds copies of the declarations: as many as were declared, in the
/// same order, each with the name and the description of its declaration and
/// with a token of `args` as its value.
pub proof fn lemma_scan_parameters_keeps_declarations(
    args: Seq<Seq<char>>,
    parameters: Seq<ClParameterView>,
)
    ensures
        scan_parameters(args, parameters) matches Ok(bound) ==> bound.len() == parameters.len()
            && forall|k: int|
            0 <= k < bound.len() ==> (#[trigger] bound[k]).name == parameters[k].name
                && bound[k].description == parameters[k].description && args.contains(
                bound[k].data,
            ),
{
}

} // verus!
