use vstd::prelude::*;

verus! {

/// Where to fetch one plot's data and how to label it.
#[derive(Debug, Clone, PartialEq, Eq)]
pub struct PlotData {
    pub plot_url: String,
    pub title: String,
    pub xaxis: String,
    pub yaxis: String,
}

/// The model of a [`PlotData`]: url, title, x-axis label, y-axis label.
pub open spec fn plot_view(p: PlotData) -> (Seq<char>, Seq<char>, Seq<char>, Seq<char>) {
    (p.plot_url@, p.title@, p.xaxis@, p.yaxis@)
}

/// The title of a temperature plot, given the current temperature already
/// formatted in Fahrenheit and in Celsius.
pub open spec fn temperature_title(temp_f: Seq<char>, temp_c: Seq<char>) -> Seq<char> {
    "Temperature Forecast "@ + temp_f + " F / "@ + temp_c + " C"@
}

/// The two plots of a page: temperature (in F) and precipitation (in inches),
/// each fetched from `base` + `/temperature?` or `/precipitation?` + `query`.
pub open spec fn spec_plots(base: Seq<char>, query: Seq<char>, temp_f: Seq<char>, temp_c: Seq<char>) -> Seq<
    (Seq<char>, Seq<char>, Seq<char>, Seq<char>),
> {
    seq![
        (base + "/temperature?"@ + query, temperature_title(temp_f, temp_c), Seq::<char>::empty(), "F"@),
        (base + "/precipitation?"@ + query, "Precipitation Forecast"@, Seq::<char>::empty(), "in"@),
    ]
}

/// The models of a list of plots.
pub open spec fn plot_views(v: Seq<PlotData>) -> Seq<(Seq<char>, Seq<char>, Seq<char>, Seq<char>)> {
    v.map_values(|p: PlotData| plot_view(p))
}

fn make_plots(base: &str, query: &str, temp_f: &str, temp_c: &str) -> (r: Vec<PlotData>)
    ensures
        plot_views(r@) == spec_plots(base@, query@, temp_f@, temp_c@),
{
    let title = String::from_str("Temperature Forecast ").concat(temp_f).concat(" F / ").concat(
        temp_c,
    ).concat(" C");
    let temp = PlotData {
        plot_url: String::from_str(base).concat("/temperature?").concat(query),
        title,
        xaxis: String::new(),
        yaxis: String::from_str("F"),
    };
    let precip = PlotData {
        plot_url: String::from_str(base).concat("/precipitation?").concat(query),
        title: String::from_str("Precipitation Forecast"),
        xaxis: String::new(),
        yaxis: String::from_str("in"),
    };
    let mut r: Vec<PlotData> = Vec::new();
    r.push(temp);
    r.push(precip);
    assert(plot_views(r@) =~= spec_plots(base@, query@, temp_f@, temp_c@));
    r
}

/// The forecast plots for the url-encoded request options `options`; the
/// current temperature comes formatted in Fahrenheit and Celsius.
pub fn get_forecast_plots(options: &str, temp_f: &str, temp_c: &str) -> (r: Vec<PlotData>)
    ensures
        plot_views(r@) == spec_plots("/weather/forecast-plots"@, options@, temp_f@, temp_c@),
{
    make_plots("/weather/forecast-plots", options, temp_f, temp_c)
}

/// The history plots for the url-encoded history request `query`; the
/// current temperature comes formatted in Fahrenheit and Celsius.
pub fn get_history_plots(query: &str, temp_f: &str, temp_c: &str) -> (r: Vec<PlotData>)
    ensures
        plot_views(r@) == spec_plots("/weather/history-plots"@, query@, temp_f@, temp_c@),
{
    make_plots("/weather/history-plots", query, temp_f, temp_c)
}

/// The script line that draws one plot.
pub open spec fn plot_call(p: PlotData) -> Seq<char> {
    "\t await create_plot('"@ + p.plot_url@ + "', '"@ + p.title@ + "', '"@ + p.xaxis@ + "', '"@
        + p.yaxis@ + "');\n"@
}

/// The script lines that draw the first `n` plots, in order.
pub open spec fn plot_calls(plots: Seq<PlotData>) -> Seq<char>
    decreases plots.len(),
{
    if plots.len() == 0 {
        Seq::<char>::empty()
    } else {
        plot_calls(plots.drop_last()) + plot_call(plots.last())
    }
}

/// The script of a plot page: an async function that draws each plot in
/// turn, and its call.
pub open spec fn spec_plot_script(plots: Seq<PlotData>) -> Seq<char> {
    "\n async function forecast_plots(){\n\n"@ + plot_calls(plots) + "};\nforecast_plots();\n"@
}

/// The script that draws the plots of a page.
pub fn plot_script(plots: &Vec<PlotData>) -> (r: String)
    ensures
        r@ == spec_plot_script(plots@),
{
    let mut body = String::from_str("\n async function forecast_plots(){\n\n");
    let mut i: usize = 0;
    while i < plots.len()
        invariant
            i <= plots@.len(),
            body@ == "\n async function forecast_plots(){\n\n"@ + plot_calls(plots@.take(i as int)),
        decreases plots@.len() - i,
    {
        let pd = &plots[i];
        body.append("\t await create_plot('");
        body.append(pd.plot_url.as_str());
        body.append("', '");
        body.append(pd.title.as_str());
        body.append("', '");
        body.append(pd.xaxis.as_str());
        body.append("', '");
        body.append(pd.yaxis.as_str());
        body.append("');\n");
        proof {
            assert(plots@.take(i + 1).drop_last() =~= plots@.take(i as int));
            assert(plots@.take(i + 1).last() == plots@[i as int]);
        }
        i += 1;
    }
    assert(plots@.take(plots@.len() as int) =~= plots@);
    body.append("};\nforecast_plots();\n");
    body
}

} // verus!
