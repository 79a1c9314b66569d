//! Run options and their validation, and the region-to-currency
//! lookup the presenters use.
use vstd::prelude::*;

use crate::strutil::str_eq;
use crate::strutil::strs_view;

verus! {

/// Where the raw resource records come from.
#[derive(Clone, Copy, Debug, PartialEq, Eq, Structural)]
pub enum InputSource {
    Json,
    Api,
}

/// How the run's results are rendered.
#[derive(Clone, Copy, Debug, PartialEq, Eq, Structural)]
pub enum OutputFormat {
    Hour,
    Month,
    Year,
    Json,
    Ods,
    Human,
    Prometheus,
}

/// Tag filters and resource kinds to skip, as given on the command
/// line.
pub struct Filter {
    pub filter_tag_key: Vec<String>,
    pub filter_tag_value: Vec<String>,
    pub filter_tag: Vec<String>,
    pub skip_resource: Vec<String>,
}

/// The drift options: whether to compute drift, and over which date
/// window.
pub struct Drift {
    pub compute_drift: bool,
    pub from_date: Option<String>,
    pub to_date: Option<String>,
}

/// The options of one run.
pub struct Args {
    pub profile: String,
    pub source: Option<InputSource>,
    pub format: OutputFormat,
    pub output: Option<String>,
    pub input: Option<String>,
    pub filter: Option<Filter>,
    pub aggregate: bool,
    pub help_resources: bool,
    pub need_default_resource: bool,
    pub drift: Drift,
}

/// The fixed set of resource kind names a skip filter may name.
pub open spec fn spec_resource_kind_known(name: Seq<char>) -> bool {
    ||| name == "Vm"@
    ||| name == "Volume"@
    ||| name == "PublicIp"@
    ||| name == "Snapshot"@
    ||| name == "NatServices"@
    ||| name == "Aggregate"@
    ||| name == "FlexibleGpu"@
    ||| name == "LoadBalancer"@
    ||| name == "Vpn"@
    ||| name == "Oos"@
    ||| name == "DedicatedInstance"@
}

/// True when the name is one of the managed resource kinds.
pub fn resource_kind_known(name: &str) -> (r: bool)
    ensures
        r == spec_resource_kind_known(name@),
{
    str_eq(name, "Vm") || str_eq(name, "Volume") || str_eq(name, "PublicIp") || str_eq(
        name,
        "Snapshot",
    ) || str_eq(name, "NatServices") || str_eq(name, "Aggregate") || str_eq(name, "FlexibleGpu")
        || str_eq(name, "LoadBalancer") || str_eq(name, "Vpn") || str_eq(name, "Oos") || str_eq(
        name,
        "DedicatedInstance",
    )
}

/// What a coherent option set is: a JSON source needs an input file
/// and the API source refuses one; per-period totals cannot be
/// aggregated; a spreadsheet cannot go to standard output; skipped
/// kinds must be known; drift renders only as JSON or a table, and
/// needs both window dates.
pub open spec fn args_valid(a: Args) -> bool {
    &&& !(a.input is None && a.source == Some(InputSource::Json))
    &&& !(a.input is Some && a.source == Some(InputSource::Api))
    &&& !(a.aggregate && (a.format == OutputFormat::Hour || a.format == OutputFormat::Month
        || a.format == OutputFormat::Year))
    &&& !(a.output is None && a.format == OutputFormat::Ods)
    &&& (match a.filter {
        Some(f) => forall|i: int|
            0 <= i < f.skip_resource@.len() ==> spec_resource_kind_known(
                #[trigger] strs_view(f.skip_resource@)[i],
            ),
        None => true,
    })
    &&& !(a.drift.compute_drift && !(a.format == OutputFormat::Json || a.format
        == OutputFormat::Human))
    &&& !(a.drift.compute_drift && (a.drift.to_date is None || a.drift.from_date is None))
}

impl Args {
    /// Validates the option set, handing it back only when coherent.
    pub fn validate(self) -> (r: Option<Args>)
        ensures
            args_valid(self) ==> r == Some(self),
            !args_valid(self) ==> r is None,
    {
        let ok_source = match (&self.input, &self.source) {
            (None, Some(InputSource::Json)) => false,
            (Some(_), Some(InputSource::Api)) => false,
            _ => true,
        };
        let ok_aggregate = match (&self.aggregate, &self.format) {
            (true, OutputFormat::Hour) => false,
            (true, OutputFormat::Month) => false,
            (true, OutputFormat::Year) => false,
            _ => true,
        };
        let ok_output = match (&self.output, &self.format) {
            (None, OutputFormat::Ods) => false,
            _ => true,
        };
        let mut ok_filter = true;
        match &self.filter {
            Some(filter) => {
                let n = filter.skip_resource.len();
                let mut i: usize = 0;
                while i < n
                    invariant
                        i <= n,
                        n == filter.skip_resource@.len(),
                        ok_filter == (forall|j: int|
                            0 <= j < i ==> spec_resource_kind_known(
                                #[trigger] strs_view(filter.skip_resource@)[j],
                            )),
                    decreases n - i,
                {
                    proof {
                        assert(strs_view(filter.skip_resource@)[i as int]
                            == filter.skip_resource@[i as int]@);
                    }
                    if !resource_kind_known(filter.skip_resource[i].as_str()) {
                        ok_filter = false;
                        proof {
                            assert(!spec_resource_kind_known(
                                strs_view(filter.skip_resource@)[i as int],
                            ));
                        }
                    }
                    i = i + 1;
                }
            },
            None => {},
        }
        let ok_drift_format = match (&self.drift.compute_drift, &self.format) {
            (false, _) => true,
            (true, OutputFormat::Json) => true,
            (true, OutputFormat::Human) => true,
            (true, _) => false,
        };
        let ok_drift_dates = !(self.drift.compute_drift && (self.drift.to_date.is_none()
            || self.drift.from_date.is_none()));
        if ok_source && ok_aggregate && ok_output && ok_filter && ok_drift_format
            && ok_drift_dates {
            Some(self)
        } else {
            None
        }
    }
}

/// The currency symbol of a region: European regions and any unknown
/// one settle in euros, the Japanese region in yen, the American ones
/// in dollars.
pub open spec fn spec_currency(region: Seq<char>) -> Seq<char> {
    if region == "eu-west-2"@ || region == "cloudgouv-eu-west-1"@ {
        "\u{20ac}"@
    } else if region == "ap-northeast-1"@ {
        "\u{a5}"@
    } else if region == "us-east-2"@ || region == "us-west-1"@ {
        "$"@
    } else {
        "\u{20ac}"@
    }
}

/// The currency symbol costs are rendered with for a region.
pub fn get_currency(region: &str) -> (r: String)
    ensures
        r@ == spec_currency(region@),
{
    if str_eq(region, "eu-west-2") || str_eq(region, "cloudgouv-eu-west-1") {
        "\u{20ac}".to_owned()
    } else if str_eq(region, "ap-northeast-1") {
        "\u{a5}".to_owned()
    } else if str_eq(region, "us-east-2") || str_eq(region, "us-west-1") {
        "$".to_owned()
    } else {
        "\u{20ac}".to_owned()
    }
}

} // verus!
