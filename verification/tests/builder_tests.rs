//! Shape inference, argument extraction and the two tree builders.

use query_core::args::{SortOrder, extract_query_args};
use query_core::error::CoreError;
use query_core::read::{Builder, ReadQuery};
use query_core::request::{Field, Selection, Value};
use query_core::schema::{FieldTemplate, InternalDataModel, InternalDataModelTemplate,
    ModelTemplate, RelationFieldRef, RelationTemplate};
use query_core::values::{GraphqlId, PrismaValue};
use query_core::inflect::Inflector;
use query_core::write::{MutationBuilder, NestedMutation, Operation, WriteQuery,
    parse_model_action};

fn scalar(name: &str) -> FieldTemplate {
    FieldTemplate::Scalar { name: name.to_string(), is_list: false }
}

fn graph() -> InternalDataModel {
    InternalDataModelTemplate {
        models: vec![
            ModelTemplate {
                name: "User".to_string(),
                fields: vec![
                    scalar("id"),
                    scalar("name"),
                    FieldTemplate::Relation {
                        name: "posts".to_string(),
                        relation: "PostToUser".to_string(),
                        related_model: "Post".to_string(),
                        is_list: true,
                        is_required: false,
                    },
                ],
            },
            ModelTemplate {
                name: "Post".to_string(),
                fields: vec![
                    scalar("id"),
                    scalar("title"),
                    FieldTemplate::Relation {
                        name: "author".to_string(),
                        relation: "PostToUser".to_string(),
                        related_model: "User".to_string(),
                        is_list: false,
                        is_required: true,
                    },
                ],
            },
        ],
        relations: vec![RelationTemplate {
            name: "PostToUser".to_string(),
            parent_model: "User".to_string(),
            child_model: "Post".to_string(),
            parent_is_list: true,
            parent_is_required: false,
            child_is_list: false,
            child_is_required: true,
        }],
        enums: vec![],
        version: None,
    }
    .build("blog".to_string())
    .unwrap()
}

fn field(name: &str, arguments: Vec<(String, Value)>, selection_set: Vec<Selection>) -> Field {
    Field { name: name.to_string(), alias: None, arguments, selection_set }
}

fn select_scalar(name: &str) -> Selection {
    Selection::Field(field(name, vec![], vec![]))
}

#[test]
fn root_field_user_is_single_shape() {
    let g = graph();
    let f = field("user", vec![], vec![select_scalar("id")]);
    let b = Builder::new(&g, &f).unwrap();
    assert!(matches!(b, Builder::Single(_)));
}

#[test]
fn root_field_users_is_collection_shape() {
    let g = graph();
    let f = field("users", vec![], vec![select_scalar("id")]);
    let b = Builder::new(&g, &f).unwrap();
    assert!(matches!(b, Builder::Many(_)));
}

#[test]
fn nested_field_shape_follows_relation_cardinality() {
    let g = graph();
    let user = g.find_model(&"User".to_string()).unwrap();
    let post = g.find_model(&"Post".to_string()).unwrap();
    // User.posts is a list relation: any nested name resolves to the
    // nested-collection shape.
    let f = field("whatever", vec![], vec![]);
    let parent = RelationFieldRef { model: user, field: 2 };
    let b = Builder::infer(&g, post, &f, Some(parent)).unwrap();
    assert!(matches!(b, Builder::ManyRelation(_)));
    // Post.author is singular: nested-singular regardless of name.
    let parent = RelationFieldRef { model: post, field: 2 };
    let b = Builder::infer(&g, user, &f, Some(parent)).unwrap();
    assert!(matches!(b, Builder::OneRelation(_)));
}

#[test]
fn unmatched_root_field_is_validation_error() {
    let g = graph();
    let f = field("groups", vec![], vec![]);
    match Builder::new(&g, &f) {
        Err(CoreError::QueryValidationError(_)) => {}
        other => panic!("expected QueryValidationError, got {:?}", other),
    }
}

#[test]
fn query_args_first_and_order_by() {
    let g = graph();
    let user = g.find_model(&"User".to_string()).unwrap();
    let model = &g.models()[user];
    let f = field(
        "users",
        vec![
            ("first".to_string(), Value::Int(10)),
            ("orderBy".to_string(), Value::EnumValue("name_ASC".to_string())),
        ],
        vec![],
    );
    let qa = extract_query_args(&f, model).unwrap();
    assert_eq!(qa.first, Some(10));
    let ob = qa.order_by.unwrap();
    assert_eq!(ob.field, "name");
    assert!(matches!(ob.sort_order, SortOrder::Ascending));
    assert_eq!(qa.skip, None);
    assert_eq!(qa.last, None);
}

#[test]
fn query_args_unknown_order_field_is_refused() {
    let g = graph();
    let user = g.find_model(&"User".to_string()).unwrap();
    let model = &g.models()[user];
    let f = field(
        "users",
        vec![("orderBy".to_string(), Value::EnumValue("bogus_ASC".to_string()))],
        vec![],
    );
    match extract_query_args(&f, model) {
        Err(CoreError::QueryValidationError(_)) => {}
        other => panic!("expected QueryValidationError, got {:?}", other),
    }
}

#[test]
fn query_args_unknown_key_is_refused() {
    let g = graph();
    let user = g.find_model(&"User".to_string()).unwrap();
    let model = &g.models()[user];
    let f = field("users", vec![("unknownKey".to_string(), Value::Int(1))], vec![]);
    match extract_query_args(&f, model) {
        Err(CoreError::QueryValidationError(_)) => {}
        other => panic!("expected QueryValidationError, got {:?}", other),
    }
}

#[test]
fn query_args_last_occurrence_wins() {
    let g = graph();
    let user = g.find_model(&"User".to_string()).unwrap();
    let model = &g.models()[user];
    let f = field(
        "users",
        vec![
            ("skip".to_string(), Value::Int(1)),
            ("skip".to_string(), Value::Int(7)),
        ],
        vec![],
    );
    let qa = extract_query_args(&f, model).unwrap();
    assert_eq!(qa.skip, Some(7));
}

#[test]
fn query_args_cursors_parse_uuids_and_offsets() {
    let g = graph();
    let user = g.find_model(&"User".to_string()).unwrap();
    let model = &g.models()[user];
    let f = field(
        "users",
        vec![
            (
                "after".to_string(),
                Value::Text("550e8400-e29b-41d4-a716-446655440000".to_string()),
            ),
            ("before".to_string(), Value::Int(3)),
        ],
        vec![],
    );
    let qa = extract_query_args(&f, model).unwrap();
    assert!(matches!(qa.after, Some(GraphqlId::Uuid(_))));
    assert_eq!(qa.before, Some(GraphqlId::Int(3)));
    // A non-UUID string stays a plain string id.
    let f = field("users", vec![("after".to_string(), Value::Text("abc".to_string()))], vec![]);
    let qa = extract_query_args(&f, model).unwrap();
    assert_eq!(qa.after, Some(GraphqlId::Text("abc".to_string())));
}

#[test]
fn read_build_produces_the_expected_tree() {
    let g = graph();
    let nested = Selection::Field(field("posts", vec![], vec![select_scalar("title")]));
    let f = field("user", vec![], vec![select_scalar("id"), nested]);
    let b = Builder::new(&g, &f).unwrap();
    let q = b.build(&g).unwrap();
    match q {
        ReadQuery::RecordQuery(node) => {
            assert_eq!(node.name, "user");
            assert_eq!(node.selected_fields.fields.len(), 2);
            assert_eq!(node.selection_order, vec!["id".to_string(), "posts".to_string()]);
            assert_eq!(node.nested.len(), 1);
            match &node.nested[0] {
                ReadQuery::ManyRelatedRecordsQuery(child) => {
                    assert_eq!(child.name, "posts");
                }
                other => panic!("expected ManyRelatedRecordsQuery, got {:?}", other),
            }
        }
        other => panic!("expected RecordQuery, got {:?}", other),
    }
}

#[test]
fn fragments_are_unsupported() {
    let g = graph();
    let f = field("user", vec![], vec![Selection::FragmentSpread]);
    let b = Builder::new(&g, &f).unwrap();
    match b.build(&g) {
        Err(CoreError::UnsupportedFeatureError(_)) => {}
        other => panic!("expected UnsupportedFeatureError, got {:?}", other),
    }
}

#[test]
fn unknown_selected_field_is_refused() {
    let g = graph();
    let f = field("user", vec![], vec![select_scalar("ghost")]);
    let b = Builder::new(&g, &f).unwrap();
    match b.build(&g) {
        Err(CoreError::QueryValidationError(_)) => {}
        other => panic!("expected QueryValidationError, got {:?}", other),
    }
}

#[test]
fn parse_create_user() {
    let g = graph();
    let (op, m) = parse_model_action(&"createUser".to_string(), &g).unwrap();
    assert!(matches!(op, Operation::Create));
    assert_eq!(g.models()[m].name, "User");
}

#[test]
fn parse_delete_many_posts() {
    let g = graph();
    let (op, m) = parse_model_action(&"deleteManyPosts".to_string(), &g).unwrap();
    assert!(matches!(op, Operation::DeleteMany));
    assert_eq!(g.models()[m].name, "Post");
}

#[test]
fn parse_unknown_action_is_refused() {
    let g = graph();
    match parse_model_action(&"archiveUser".to_string(), &g) {
        Err(CoreError::QueryValidationError(_)) => {}
        other => panic!("expected QueryValidationError, got {:?}", other),
    }
}

#[test]
fn operation_from_name_knows_the_action_set() {
    assert!(matches!(Operation::from_name(&"create".to_string()), Some(Operation::Create)));
    assert!(matches!(
        Operation::from_name(&"updateMany".to_string()),
        Some(Operation::UpdateMany)
    ));
    assert!(matches!(Operation::from_name(&"upsert".to_string()), Some(Operation::Upsert)));
    assert!(Operation::from_name(&"reset".to_string()).is_none());
}

fn data_object(entries: Vec<(&str, Value)>) -> Value {
    Value::Object(entries.into_iter().map(|(k, v)| (k.to_string(), v)).collect())
}

#[test]
fn mutation_create_collects_scalar_and_list_args() {
    let g = graph();
    let f = field(
        "createUser",
        vec![(
            "data".to_string(),
            data_object(vec![
                ("name", Value::Text("Ada".to_string())),
                (
                    "tags",
                    data_object(vec![(
                        "set",
                        Value::List(vec![Value::Int(1), Value::Int(2)]),
                    )]),
                ),
            ]),
        )],
        vec![],
    );
    let q = MutationBuilder::new(&g, &f).build().unwrap();
    match q {
        WriteQuery::CreateNode(node) => {
            assert_eq!(g.models()[node.model].name, "User");
            assert_eq!(node.non_list_args.pairs.len(), 1);
            assert_eq!(node.non_list_args.pairs[0].0, "name");
            assert_eq!(
                node.non_list_args.pairs[0].1,
                PrismaValue::Text("Ada".to_string())
            );
            assert_eq!(node.list_args.len(), 1);
            assert_eq!(node.list_args[0].0, "tags");
            assert_eq!(
                node.list_args[0].1,
                Some(vec![PrismaValue::Int(1), PrismaValue::Int(2)])
            );
            assert!(node.nested_mutations.is_empty());
        }
        other => panic!("expected CreateNode, got {:?}", other),
    }
}

#[test]
fn mutation_update_carries_selector_and_nested_connect() {
    let g = graph();
    let f = field(
        "updateUser",
        vec![
            (
                "where".to_string(),
                data_object(vec![("id", Value::Int(1))]),
            ),
            (
                "data".to_string(),
                data_object(vec![
                    ("name", Value::Text("Grace".to_string())),
                    (
                        "posts",
                        data_object(vec![(
                            "connect",
                            data_object(vec![("id", Value::Int(2))]),
                        )]),
                    ),
                ]),
            ),
        ],
        vec![],
    );
    let q = MutationBuilder::new(&g, &f).build().unwrap();
    match q {
        WriteQuery::UpdateNode(node) => {
            assert_eq!(node.where_.field, "id");
            assert_eq!(node.where_.value, PrismaValue::Int(1));
            assert_eq!(node.nested_mutations.len(), 1);
            match &node.nested_mutations[0] {
                NestedMutation::Connect { where_, .. } => {
                    assert_eq!(where_.field, "id");
                    assert_eq!(where_.value, PrismaValue::Int(2));
                }
                other => panic!("expected nested Connect, got {:?}", other),
            }
        }
        other => panic!("expected UpdateNode, got {:?}", other),
    }
}

#[test]
fn mutation_delete_many_builds_a_real_filter() {
    let g = graph();
    let f = field(
        "deleteManyPosts",
        vec![(
            "where".to_string(),
            data_object(vec![("title", Value::Text("old".to_string()))]),
        )],
        vec![],
    );
    let q = MutationBuilder::new(&g, &f).build().unwrap();
    match q {
        WriteQuery::DeleteNodes(node) => {
            assert_eq!(g.models()[node.model].name, "Post");
            assert_eq!(node.filter.conditions.len(), 1);
            assert_eq!(node.filter.conditions[0].0, "title");
        }
        other => panic!("expected DeleteNodes, got {:?}", other),
    }
}

#[test]
fn mutation_upsert_shares_arguments_across_branches() {
    let g = graph();
    let f = field(
        "upsertUser",
        vec![
            (
                "where".to_string(),
                data_object(vec![("id", Value::Int(9))]),
            ),
            (
                "data".to_string(),
                data_object(vec![("name", Value::Text("Alan".to_string()))]),
            ),
        ],
        vec![],
    );
    let q = MutationBuilder::new(&g, &f).build().unwrap();
    match q {
        WriteQuery::UpsertNode(node) => {
            assert_eq!(node.where_.value, PrismaValue::Int(9));
            assert_eq!(node.create.non_list_args.pairs, node.update.non_list_args.pairs);
            assert!(node.create.nested_mutations.is_empty());
        }
        other => panic!("expected UpsertNode, got {:?}", other),
    }
}

#[test]
fn mutation_malformed_argument_shape_is_validation_error() {
    let g = graph();
    // A bare (non-object) top-level argument is the defect shape that must
    // come back as a validation error, never a crash.
    let f = field("createUser", vec![("data".to_string(), Value::Int(5))], vec![]);
    match MutationBuilder::new(&g, &f).build() {
        Err(CoreError::QueryValidationError(_)) => {}
        other => panic!("expected QueryValidationError, got {:?}", other),
    }
    // A nested object that is neither a relation nor a list replacement.
    let f = field(
        "createUser",
        vec![(
            "data".to_string(),
            data_object(vec![("name", data_object(vec![("odd", Value::Int(1))]))]),
        )],
        vec![],
    );
    match MutationBuilder::new(&g, &f).build() {
        Err(CoreError::QueryValidationError(_)) => {}
        other => panic!("expected QueryValidationError, got {:?}", other),
    }
}

#[test]
fn mutation_update_many_is_not_constructible() {
    let g = graph();
    let f = field(
        "updateManyUsers",
        vec![("data".to_string(), data_object(vec![]))],
        vec![],
    );
    match MutationBuilder::new(&g, &f).build() {
        Err(CoreError::QueryValidationError(_)) => {}
        other => panic!("expected QueryValidationError, got {:?}", other),
    }
}


#[test]
fn singularize_honours_the_irregular_overrides() {
    assert_eq!(Inflector::singularize(&"todoes".to_string()), "todo");
    assert_eq!(Inflector::singularize(&"people".to_string()), "person");
    assert_eq!(Inflector::singularize(&"users".to_string()), "user");
}

#[test]
fn selection_order_uses_aliases() {
    let g = graph();
    let aliased = Field {
        name: "name".to_string(),
        alias: Some("displayName".to_string()),
        arguments: vec![],
        selection_set: vec![],
    };
    let f = field("user", vec![], vec![select_scalar("id"), Selection::Field(aliased)]);
    let b = Builder::new(&g, &f).unwrap();
    match b.build(&g).unwrap() {
        ReadQuery::RecordQuery(node) => {
            assert_eq!(
                node.selection_order,
                vec!["id".to_string(), "displayName".to_string()]
            );
        }
        other => panic!("expected RecordQuery, got {:?}", other),
    }
}

#[test]
fn nested_disconnect_and_set_parse_their_shapes() {
    let g = graph();
    let f = field(
        "updateUser",
        vec![
            ("where".to_string(), data_object(vec![("id", Value::Int(1))])),
            (
                "data".to_string(),
                data_object(vec![(
                    "posts",
                    data_object(vec![
                        ("disconnect", Value::Boolean(true)),
                        (
                            "set",
                            Value::List(vec![data_object(vec![("id", Value::Int(5))])]),
                        ),
                    ]),
                )]),
            ),
        ],
        vec![],
    );
    let q = MutationBuilder::new(&g, &f).build().unwrap();
    match q {
        WriteQuery::UpdateNode(node) => {
            assert_eq!(node.nested_mutations.len(), 2);
            assert!(matches!(
                node.nested_mutations[0],
                NestedMutation::Disconnect { where_: None, .. }
            ));
            match &node.nested_mutations[1] {
                NestedMutation::SetLinks { wheres, .. } => {
                    assert_eq!(wheres.len(), 1);
                    assert_eq!(wheres[0].value, PrismaValue::Int(5));
                }
                other => panic!("expected nested SetLinks, got {:?}", other),
            }
        }
        other => panic!("expected UpdateNode, got {:?}", other),
    }
}

#[test]
fn mutation_delete_takes_only_a_selector() {
    let g = graph();
    let f = field(
        "deleteUser",
        vec![("where".to_string(), data_object(vec![("id", Value::Int(4))]))],
        vec![],
    );
    match MutationBuilder::new(&g, &f).build().unwrap() {
        WriteQuery::DeleteNode(node) => {
            assert_eq!(node.where_.field, "id");
            assert_eq!(node.where_.value, PrismaValue::Int(4));
        }
        other => panic!("expected DeleteNode, got {:?}", other),
    }
}

#[test]
fn query_args_where_builds_a_validated_filter() {
    let g = graph();
    let user = g.find_model(&"User".to_string()).unwrap();
    let model = &g.models()[user];
    let f = field(
        "users",
        vec![(
            "where".to_string(),
            data_object(vec![("name", Value::Text("Ada".to_string()))]),
        )],
        vec![],
    );
    let qa = extract_query_args(&f, model).unwrap();
    let filter = qa.filter.unwrap();
    assert_eq!(filter.conditions.len(), 1);
    assert_eq!(filter.conditions[0].0, "name");
    assert_eq!(filter.conditions[0].1, PrismaValue::Text("Ada".to_string()));

    // A condition on an unknown field is refused.
    let f = field(
        "users",
        vec![(
            "where".to_string(),
            data_object(vec![("ghost", Value::Int(1))]),
        )],
        vec![],
    );
    match extract_query_args(&f, model) {
        Err(CoreError::QueryValidationError(_)) => {}
        other => panic!("expected QueryValidationError, got {:?}", other),
    }
}

#[test]
fn query_args_out_of_range_numbers_are_refused() {
    let g = graph();
    let user = g.find_model(&"User".to_string()).unwrap();
    let model = &g.models()[user];
    let f = field("users", vec![("skip".to_string(), Value::Int(-1))], vec![]);
    match extract_query_args(&f, model) {
        Err(CoreError::QueryValidationError(_)) => {}
        other => panic!("expected QueryValidationError, got {:?}", other),
    }
}

#[test]
fn collection_build_carries_its_arguments() {
    let g = graph();
    let f = field(
        "users",
        vec![("first".to_string(), Value::Int(2))],
        vec![select_scalar("name")],
    );
    let b = Builder::new(&g, &f).unwrap();
    match b.build(&g).unwrap() {
        ReadQuery::ManyRecordsQuery(node) => {
            assert_eq!(node.args.first, Some(2));
            assert_eq!(node.selected_fields.fields.len(), 1);
        }
        other => panic!("expected ManyRecordsQuery, got {:?}", other),
    }
}
