//! The processor metrics read from the sensor tree: per-core clocks, loads
//! and temperatures, with the total load and the package temperature.

use vstd::prelude::*;

use crate::sensor::{
    has_label, in_tree, lemma_find_node_sound_and_complete, SensorNode, children_of, collect_data, core_readings, extract_number, extracted_number,
    find_node, node_find,
};

verus! {

/// The label of the processor node to read, as the hardware monitor names
/// this machine's processor.
pub const USER_CPU: &'static str = "Intel Core i3-10110U";

/// The processor metrics. A field is `None` when the sensor tree lacks the
/// node it is read from, and the metric is then left out of the record.
#[derive(Debug)]
pub struct CpuMetrics {
    pub frequencies: Option<Vec<String>>,
    pub core_loads: Option<Vec<String>>,
    pub total_load: Option<String>,
    pub temperatures: Option<Vec<String>>,
    pub package_temp: Option<String>,
}

/// The contents of an optional list of readings.
pub open spec fn list_view(o: Option<Vec<String>>) -> Option<Seq<String>> {
    match o {
        Some(v) => Some(v@),
        None => None,
    }
}

/// The characters of an optional string.
pub open spec fn text_view(o: Option<String>) -> Option<Seq<char>> {
    match o {
        Some(s) => Some(s@),
        None => None,
    }
}

/// The group node labelled `group` under the processor node labelled `cpu`.
pub open spec fn group_node(root: SensorNode, cpu: Seq<char>, group: Seq<char>) -> Option<
    SensorNode,
> {
    match node_find(root, cpu) {
        Some(c) => node_find(c, group),
        None => None,
    }
}

/// The per-core readings of a group under the processor node.
pub open spec fn group_readings(root: SensorNode, cpu: Seq<char>, group: Seq<char>) -> Option<
    Seq<String>,
> {
    match group_node(root, cpu, group) {
        Some(g) => Some(core_readings(children_of(g))),
        None => None,
    }
}

/// The number shown by the node labelled `label` within a group under the
/// processor node, when the node exists and shows a value.
pub open spec fn group_summary(
    root: SensorNode,
    cpu: Seq<char>,
    group: Seq<char>,
    label: Seq<char>,
) -> Option<Seq<char>> {
    match group_node(root, cpu, group) {
        Some(g) => match node_find(g, label) {
            Some(n) => match n.value {
                Some(v) => Some(extracted_number(v@)),
                None => None,
            },
            None => None,
        },
        None => None,
    }
}

/// Whether `m` holds exactly the metrics that the tree `root` gives for the
/// processor labelled `cpu`.
pub open spec fn metrics_of(m: CpuMetrics, root: SensorNode, cpu: Seq<char>) -> bool {
    &&& list_view(m.frequencies) == group_readings(root, cpu, "Clocks"@)
    &&& list_view(m.core_loads) == group_readings(root, cpu, "Load"@)
    &&& text_view(m.total_load) == group_summary(root, cpu, "Load"@, "CPU Total"@)
    &&& list_view(m.temperatures) == group_readings(root, cpu, "Temperatures"@)
    &&& text_view(m.package_temp) == group_summary(root, cpu, "Temperatures"@, "CPU Package"@)
}

/// A summary figure is reported only with the per-core readings of its
/// group: the total load only with the core loads, the package temperature
/// only with the core temperatures; and nothing is reported when the tree
/// has no node labelled `cpu`.
pub proof fn lemma_summaries_come_with_their_group(m: CpuMetrics, root: SensorNode, cpu: Seq<char>)
    requires
        metrics_of(m, root, cpu),
    ensures
        m.total_load is Some ==> m.core_loads is Some,
        m.package_temp is Some ==> m.temperatures is Some,
        node_find(root, cpu) is None ==> m.frequencies is None && m.core_loads is None
            && m.total_load is None && m.temperatures is None && m.package_temp is None,
{
}

/// The group a metric is read from is a node of the processor's own
/// subtree with the group's label, and the group is found whenever the
/// processor's subtree has a node with that label.
pub proof fn lemma_groups_lie_under_the_processor(root: SensorNode, cpu: Seq<char>, group: Seq<char>)
    ensures
        node_find(root, cpu).is_some() ==> in_tree(root, node_find(root, cpu).unwrap())
            && node_find(root, cpu).unwrap().text@ == cpu,
        group_node(root, cpu, group).is_some() ==> node_find(root, cpu).is_some() && in_tree(
            node_find(root, cpu).unwrap(),
            group_node(root, cpu, group).unwrap(),
        ) && group_node(root, cpu, group).unwrap().text@ == group,
        node_find(root, cpu).is_some() && has_label(node_find(root, cpu).unwrap(), group)
            ==> group_node(root, cpu, group).is_some(),
{
    lemma_find_node_sound_and_complete(root, cpu);
    if node_find(root, cpu).is_some() {
        lemma_find_node_sound_and_complete(node_find(root, cpu).unwrap(), group);
    }
}

/// Whether the readings `v`, when present, are the per-core readings of a
/// node labelled `group` in the subtree of `c`.
pub open spec fn readings_under(c: SensorNode, group: Seq<char>, v: Option<Seq<String>>) -> bool {
    v.is_some() ==> exists|n: SensorNode|
        #[trigger] in_tree(c, n) && n.text@ == group && v == Some(core_readings(children_of(n)))
}

/// Whether the figure `v`, when present, is the number shown by a node
/// labelled `label` inside a node labelled `group` in the subtree of `c`.
pub open spec fn summary_under(
    c: SensorNode,
    group: Seq<char>,
    label: Seq<char>,
    v: Option<Seq<char>>,
) -> bool {
    v.is_some() ==> exists|g: SensorNode, t: SensorNode|
        #![trigger in_tree(c, g), in_tree(g, t)]
        in_tree(c, g) && g.text@ == group && in_tree(g, t) && t.text@ == label && t.value.is_some()
            && v == Some(extracted_number(t.value.unwrap()@))
}

/// Every metric is read under the processor node: when the tree has no
/// node labelled `cpu` there are no metrics, and otherwise each metric
/// present comes from a group node inside the first node labelled `cpu`.
pub proof fn lemma_metrics_read_under_processor(m: CpuMetrics, root: SensorNode, cpu: Seq<char>)
    requires
        metrics_of(m, root, cpu),
    ensures
        node_find(root, cpu).is_none() ==> m.frequencies.is_none() && m.core_loads.is_none()
            && m.total_load.is_none() && m.temperatures.is_none() && m.package_temp.is_none(),
        node_find(root, cpu).is_some() ==> {
            let c = node_find(root, cpu).unwrap();
            &&& readings_under(c, "Clocks"@, list_view(m.frequencies))
            &&& readings_under(c, "Load"@, list_view(m.core_loads))
            &&& readings_under(c, "Temperatures"@, list_view(m.temperatures))
            &&& summary_under(c, "Load"@, "CPU Total"@, text_view(m.total_load))
            &&& summary_under(c, "Temperatures"@, "CPU Package"@, text_view(m.package_temp))
        },
{
    lemma_groups_lie_under_the_processor(root, cpu, "Clocks"@);
    lemma_groups_lie_under_the_processor(root, cpu, "Load"@);
    lemma_groups_lie_under_the_processor(root, cpu, "Temperatures"@);
    if node_find(root, cpu).is_some() {
        let c = node_find(root, cpu).unwrap();
        let load = group_node(root, cpu, "Load"@);
        if load.is_some() {
            lemma_find_node_sound_and_complete(load.unwrap(), "CPU Total"@);
        }
        let temps = group_node(root, cpu, "Temperatures"@);
        if temps.is_some() {
            lemma_find_node_sound_and_complete(temps.unwrap(), "CPU Package"@);
        }
    }
}

/// The per-core readings of the group labelled `group` under `cpu_node`.
fn readings_of_group(cpu_node: &SensorNode, group: &str) -> (r: Option<Vec<String>>)
    ensures
        list_view(r) == match node_find(*cpu_node, group@) {
            Some(g) => Some(core_readings(children_of(g))),
            None => None,
        },
{
    match find_node(cpu_node, group) {
        Some(g) => Some(collect_data(g)),
        None => None,
    }
}

/// The number shown by the node labelled `label` under the group labelled
/// `group` under `cpu_node`.
fn summary_of_group(cpu_node: &SensorNode, group: &str, label: &str) -> (r: Option<String>)
    ensures
        text_view(r) == match node_find(*cpu_node, group@) {
            Some(g) => match node_find(g, label@) {
                Some(n) => match n.value {
                    Some(v) => Some(extracted_number(v@)),
                    None => None,
                },
                None => None,
            },
            None => None,
        },
{
    match find_node(cpu_node, group) {
        Some(g) => match find_node(g, label) {
            Some(n) => match &n.value {
                Some(v) => Some(extract_number(v.as_str())),
                None => None,
            },
            None => None,
        },
        None => None,
    }
}

/// Reads the metrics of the processor labelled `cpu` from the sensor tree:
/// the per-core readings under its "Clocks", "Load" and "Temperatures"
/// nodes, and the numbers shown by "CPU Total" under "Load" and by
/// "CPU Package" under "Temperatures".
pub fn cpu_metrics_for(root: &SensorNode, cpu: &str) -> (r: CpuMetrics)
    ensures
        metrics_of(r, *root, cpu@),
{
    match find_node(root, cpu) {
        Some(c) => CpuMetrics {
            frequencies: readings_of_group(c, "Clocks"),
            core_loads: readings_of_group(c, "Load"),
            total_load: summary_of_group(c, "Load", "CPU Total"),
            temperatures: readings_of_group(c, "Temperatures"),
            package_temp: summary_of_group(c, "Temperatures", "CPU Package"),
        },
        None => CpuMetrics {
            frequencies: None,
            core_loads: None,
            total_load: None,
            temperatures: None,
            package_temp: None,
        },
    }
}

/// Reads the metrics of this machine's processor, `USER_CPU`, from the
/// sensor tree.
pub fn get_cpu_metrics(root: &SensorNode) -> (r: CpuMetrics)
    ensures
        metrics_of(r, *root, USER_CPU@),
{
    cpu_metrics_for(root, USER_CPU)
}

} // verus!
