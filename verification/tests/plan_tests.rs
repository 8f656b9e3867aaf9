use rmlalgebra::attrset::AttrSet;
use rmlalgebra::operators::DataFormat;
use rmlalgebra::operators::IOType;
use rmlalgebra::operators::Operator;
use rmlalgebra::operators::Projection;
use rmlalgebra::operators::Rename;
use rmlalgebra::operators::Source;
use rmlalgebra::plan::Plan;
use rmlalgebra::plan::PlanError;
use rmlalgebra::plan::PlanGraph;
use rmlalgebra::plan::Processed;
use rmlalgebra::strmap::StrMap;

fn new_source() -> Source {
    Source {
        config: StrMap::new(),
        source_type: IOType::File,
        reference_iterators: vec![],
        data_format: DataFormat::CSV,
    }
}

#[test]
fn test_plan_source() {
    let mut graph = PlanGraph::new();
    let plan = Plan::new();
    let source = new_source();
    plan.source(&mut graph, new_source());

    assert!(graph.node_count() == 1);
    assert!(graph.edge_count() == 0);
    let retrieved_node = graph.nodes.first();

    assert!(retrieved_node.is_some());
    let source_op = Operator::SourceOp { config: source };
    assert!(retrieved_node.unwrap().operator == source_op);
}

#[test]
fn test_plan_apply() -> Result<(), PlanError> {
    let mut graph = PlanGraph::new();
    let plan = Plan::new();
    let source = new_source();

    let project_op = Operator::ProjectOp {
        config: Projection { projection_attributes: AttrSet::new() },
    };
    let mut rename_pairs = StrMap::new();
    rename_pairs.insert("first".to_string(), "last".to_string());
    let rename_op = Operator::RenameOp { config: Rename { rename_pairs } };

    let _ = plan
        .source(&mut graph, source)
        .apply(&mut graph, project_op, "Projection")?
        .apply(&mut graph, rename_op, "Rename")?;

    assert!(
        graph.node_count() == 3,
        "Number of nodes should be 3 but it is instead: {}",
        graph.node_count()
    );
    assert!(
        graph.edge_count() == 2,
        "Number of edges should be 2 but it is instead: {}",
        graph.edge_count()
    );

    Ok(())
}

#[test]
fn apply_on_empty_graph_is_refused() {
    let mut graph = PlanGraph::new();
    let dangling: Plan<Processed> = Plan { _t: Processed {}, last_node: None };
    let project_op = Operator::ProjectOp {
        config: Projection { projection_attributes: AttrSet::new() },
    };
    assert_eq!(
        dangling.apply(&mut graph, project_op, "Projection").err(),
        Some(PlanError::EmptyPlan)
    );
}

#[test]
fn apply_without_frontier_is_dangling() {
    let mut graph = PlanGraph::new();
    let plan = Plan::new();
    plan.source(&mut graph, new_source());
    let dangling: Plan<Processed> = Plan { _t: Processed {}, last_node: None };
    let project_op = Operator::ProjectOp {
        config: Projection { projection_attributes: AttrSet::new() },
    };
    assert_eq!(
        dangling.apply(&mut graph, project_op, "Projection").err(),
        Some(PlanError::DanglingApplyOperator)
    );
}

#[test]
fn apply_of_reserved_operator_is_refused() {
    let mut graph = PlanGraph::new();
    let plan = Plan::new();
    let processed = plan.source(&mut graph, new_source());
    let source_op = Operator::SourceOp { config: new_source() };
    assert_eq!(
        processed.apply(&mut graph, source_op, "Source").err(),
        Some(PlanError::WrongApplyOperator)
    );
}

#[test]
fn node_identifiers_count_nodes() {
    let mut graph = PlanGraph::new();
    let plan = Plan::new();
    let processed = plan.source(&mut graph, new_source());
    let project_op = Operator::ProjectOp {
        config: Projection { projection_attributes: AttrSet::new() },
    };
    processed.apply(&mut graph, project_op, "Projection").unwrap();
    assert_eq!(graph.nodes[0].id, "Source_0");
    assert_eq!(graph.nodes[1].id, "Projection_1");
    assert_eq!(graph.edges[0].edge.value, "MappingTuple");
}
