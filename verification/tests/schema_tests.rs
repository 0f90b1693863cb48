//! Schema graph construction, lookup and the derived relation-field index.

use query_core::error::CoreError;
use query_core::schema::{FieldTemplate, InternalDataModel, InternalDataModelTemplate,
    InternalEnum, ModelTemplate, RelationTemplate};
use query_core::project::{DefaultTrue, ProjectManifestation, ProjectTemplate, Revision};
use query_core::dml::{Comment, DirectiveArgs, DmlField, ScalarListDirectiveValidator,
    ScalarListStrategy};
use query_core::migration::{AddColumn, AlterTable, ColumnDescription, ColumnType, CreateTable,
    DropColumn, DropTable, SqlMigrationStep, TableChange};
use query_core::config::ConnectionStringConfig;

fn scalar(name: &str) -> FieldTemplate {
    FieldTemplate::Scalar { name: name.to_string(), is_list: false }
}

fn relation_field(
    name: &str,
    relation: &str,
    related_model: &str,
    is_list: bool,
    is_required: bool,
) -> FieldTemplate {
    FieldTemplate::Relation {
        name: name.to_string(),
        relation: relation.to_string(),
        related_model: related_model.to_string(),
        is_list,
        is_required,
    }
}

fn blog_template() -> InternalDataModelTemplate {
    InternalDataModelTemplate {
        models: vec![
            ModelTemplate {
                name: "User".to_string(),
                fields: vec![
                    scalar("id"),
                    scalar("name"),
                    relation_field("posts", "PostToUser", "Post", true, false),
                ],
            },
            ModelTemplate {
                name: "Post".to_string(),
                fields: vec![
                    scalar("id"),
                    scalar("title"),
                    relation_field("author", "PostToUser", "User", false, true),
                ],
            },
        ],
        relations: vec![RelationTemplate {
            name: "PostToUser".to_string(),
            parent_model: "User".to_string(),
            child_model: "Post".to_string(),
            parent_is_list: true,
            parent_is_required: false,
            child_is_list: false,
            child_is_required: true,
        }],
        enums: vec![InternalEnum { name: "Role".to_string(), values: vec!["ADMIN".to_string()] }],
        version: None,
    }
}

pub fn blog_graph() -> InternalDataModel {
    blog_template().build("blog".to_string()).unwrap()
}

#[test]
fn find_model_returns_the_named_model() {
    let g = blog_graph();
    let user = g.find_model(&"User".to_string()).unwrap();
    assert_eq!(g.models()[user].name, "User");
    let post = g.find_model(&"Post".to_string()).unwrap();
    assert_eq!(g.models()[post].name, "Post");
    assert_ne!(user, post);
}

#[test]
fn find_model_rejects_similar_names() {
    let g = blog_graph();
    match g.find_model(&"Use".to_string()) {
        Err(CoreError::NotFoundError(_)) => {}
        other => panic!("expected NotFoundError, got {:?}", other),
    }
    match g.find_model(&"user".to_string()) {
        Err(CoreError::NotFoundError(_)) => {}
        other => panic!("expected NotFoundError, got {:?}", other),
    }
}

#[test]
fn find_relation_is_total() {
    let g = blog_graph();
    let r = g.find_relation(&"PostToUser".to_string()).unwrap();
    assert_eq!(g.relations()[r].name, "PostToUser");
    match g.find_relation(&"Missing".to_string()) {
        Err(CoreError::NotFoundError(_)) => {}
        other => panic!("expected NotFoundError, got {:?}", other),
    }
}

#[test]
fn relation_fields_is_idempotent() {
    let g = blog_graph();
    let first = g.relation_fields().clone();
    let second = g.relation_fields().clone();
    assert_eq!(first, second);
    assert_eq!(first.len(), 2);
}

#[test]
fn fields_requiring_model_picks_required_singular() {
    let g = blog_graph();
    let user = g.find_model(&"User".to_string()).unwrap();
    // Post.author is required and singular and targets User.
    let requiring = g.fields_requiring_model(user);
    assert_eq!(requiring.len(), 1);
    let post = g.find_model(&"Post".to_string()).unwrap();
    assert_eq!(requiring[0].model, post);
}

#[test]
fn duplicate_model_names_are_refused() {
    let mut t = blog_template();
    t.models.push(ModelTemplate { name: "User".to_string(), fields: vec![] });
    match t.build("blog".to_string()) {
        Err(CoreError::QueryValidationError(_)) => {}
        Err(other) => panic!("expected QueryValidationError, got {:?}", other),
        Ok(_) => panic!("expected QueryValidationError, got a built graph"),
    }
}

#[test]
fn dangling_relation_names_are_refused() {
    let mut t = blog_template();
    t.relations[0].child_model = "Ghost".to_string();
    match t.build("blog".to_string()) {
        Err(CoreError::NotFoundError(_)) => {}
        Err(other) => panic!("expected NotFoundError, got {:?}", other),
        Ok(_) => panic!("expected NotFoundError, got a built graph"),
    }
}

#[test]
fn legacy_means_no_version_tag() {
    let g = blog_graph();
    assert!(g.is_legacy());
    let mut t = blog_template();
    t.version = Some("v2".to_string());
    let tagged = t.build("blog".to_string()).unwrap();
    assert!(!tagged.is_legacy());
}

#[test]
fn db_name_prefers_schema_then_database_then_id() {
    let base = |manifestation| ProjectTemplate {
        id: "project-id".to_string(),
        internal_data_model: blog_template(),
        manifestation,
        revision: Revision::default(),
    };
    let with_schema = base(ProjectManifestation {
        database: Some("db".to_string()),
        schema: Some("sch".to_string()),
    });
    assert_eq!(with_schema.db_name(), "sch");
    let with_db = base(ProjectManifestation { database: Some("db".to_string()), schema: None });
    assert_eq!(with_db.db_name(), "db");
    let bare = base(ProjectManifestation::default());
    assert_eq!(bare.db_name(), "project-id");
}

#[test]
fn project_build_carries_the_graph() {
    let t = ProjectTemplate {
        id: "p1".to_string(),
        internal_data_model: blog_template(),
        manifestation: ProjectManifestation::default(),
        revision: Revision::default(),
    };
    let p = t.build().unwrap();
    assert_eq!(p.id, "p1");
    assert_eq!(p.internal_data_model().db_name(), "p1");
    assert!(p.internal_data_model().find_model(&"User".to_string()).is_ok());
}

#[test]
fn defaults_of_revision_and_flags() {
    assert_eq!(Revision::default().0, 1);
    assert!(DefaultTrue::default().0);
}

#[test]
fn scalar_list_directive_applies_recognized_strategies() {
    let v = ScalarListDirectiveValidator {};
    assert_eq!(v.directive_name(), "scalarList");
    let mut f = DmlField { name: "tags".to_string(), scalar_list_strategy: None };
    let err = v.validate_and_apply(
        &DirectiveArgs { strategy: Some("EMBEDDED".to_string()) },
        &mut f,
    );
    assert!(err.is_none());
    assert_eq!(f.scalar_list_strategy, Some(ScalarListStrategy::Embedded));
    let err = v.validate_and_apply(
        &DirectiveArgs { strategy: Some("SIDEWAYS".to_string()) },
        &mut f,
    );
    assert_eq!(err, Some("SIDEWAYS".to_string()));
    let err = v.validate_and_apply(&DirectiveArgs { strategy: None }, &mut f);
    assert!(err.is_none());
}

#[test]
fn migration_steps_carry_their_columns() {
    let create = SqlMigrationStep::CreateTable(CreateTable {
        name: "User".to_string(),
        columns: vec![ColumnDescription {
            name: "id".to_string(),
            tpe: ColumnType::Int,
            required: true,
        }],
        primary_columns: vec!["id".to_string()],
    });
    match create {
        SqlMigrationStep::CreateTable(t) => {
            assert_eq!(t.columns.len(), 1);
            assert_eq!(t.columns[0].tpe, ColumnType::Int);
        }
        other => panic!("expected CreateTable, got {:?}", other),
    }
    let alter = SqlMigrationStep::AlterTable(AlterTable {
        table: "User".to_string(),
        changes: vec![
            TableChange::AddColumn(AddColumn {
                column: ColumnDescription {
                    name: "age".to_string(),
                    tpe: ColumnType::Int,
                    required: false,
                },
            }),
            TableChange::DropColumn(DropColumn { name: "name".to_string() }),
        ],
    });
    match alter {
        SqlMigrationStep::AlterTable(t) => assert_eq!(t.changes.len(), 2),
        other => panic!("expected AlterTable, got {:?}", other),
    }
    let drop = SqlMigrationStep::DropTable(DropTable { name: "User".to_string() });
    assert!(matches!(drop, SqlMigrationStep::DropTable(_)));
}

#[test]
fn comments_keep_their_text_and_error_flag() {
    let c = Comment { text: "deprecated".to_string(), is_error: false };
    assert_eq!(c.text, "deprecated");
    assert!(!c.is_error);
}

#[test]
fn connection_string_config_exposes_its_limits() {
    let c = ConnectionStringConfig {
        connector: "postgres".to_string(),
        uri: "postgres://localhost/db".to_string(),
        database: None,
        connection_limit: Some(4),
        pooled: Some(true),
        schema: None,
        management_schema: None,
        migrations: None,
        active: None,
    };
    assert_eq!(c.connection_limit(), Some(4));
    assert_eq!(c.pooled(), Some(true));
}
