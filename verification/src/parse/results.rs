//! What the results of the parser stand for.
use vstd::prelude::*;
use crate::ast;
use crate::ast::{
    AliasDecl, ArmBody, Attribute, AttributeArg, Block, CallArg, ClassDecl, ConstDecl,
    Constraint, ConstructorDecl, ConversionDecl, DestructorDecl, EnumDecl, Expr, ExtensionDecl, ExtensionMember,
    ExternDecl, ExternMember, FieldInit, Function, GenericParam, ImportDecl, Item, MapEntry,
    MatchArm, OperatorDecl, Param, Pattern, PropertyDecl, Setter, Stmt, StringPart,
    StructDecl, StructField, Target, TraitDecl, TraitMethod, Type, VarDecl, VariantDecl,
    WhereClause, Visibility,
};
use crate::parse::input::Parsed;
use crate::tree;

verus! {

pub open spec fn option_string(v: Option<String>) -> Option<Seq<char>> {
    match v {
        Some(a) => Some(a@),
        None => None,
    }
}

pub open spec fn option_type(v: Option<Type>) -> Option<tree::Type> {
    match v {
        Some(a) => Some(a.tree()),
        None => None,
    }
}

pub open spec fn option_expr(v: Option<Expr>) -> Option<tree::Expr> {
    match v {
        Some(a) => Some(a.tree()),
        None => None,
    }
}

pub open spec fn option_whereclause(v: Option<WhereClause>) -> Option<tree::WhereClause> {
    match v {
        Some(a) => Some(a.tree()),
        None => None,
    }
}

pub open spec fn result_type(r: Result<(Type, usize), usize>) -> Parsed<tree::Type> {
    match r {
        Ok(v) => Ok((v.0.tree(), v.1 as int)),
        Err(stop) => Err(stop as int),
    }
}

pub open spec fn result_vec_type(r: Result<(Vec<Type>, usize), usize>) -> Parsed<Seq<tree::Type>> {
    match r {
        Ok(v) => Ok((ast::types_of(v.0@), v.1 as int)),
        Err(stop) => Err(stop as int),
    }
}

pub open spec fn result_genericparam(r: Result<(GenericParam, usize), usize>) -> Parsed<tree::GenericParam> {
    match r {
        Ok(v) => Ok((v.0.tree(), v.1 as int)),
        Err(stop) => Err(stop as int),
    }
}

pub open spec fn result_vec_genericparam(r: Result<(Vec<GenericParam>, usize), usize>) -> Parsed<Seq<tree::GenericParam>> {
    match r {
        Ok(v) => Ok((ast::generics_of(v.0@), v.1 as int)),
        Err(stop) => Err(stop as int),
    }
}

pub open spec fn result_constraint(r: Result<(Constraint, usize), usize>) -> Parsed<tree::Constraint> {
    match r {
        Ok(v) => Ok((v.0.tree(), v.1 as int)),
        Err(stop) => Err(stop as int),
    }
}

pub open spec fn result_vec_constraint(r: Result<(Vec<Constraint>, usize), usize>) -> Parsed<Seq<tree::Constraint>> {
    match r {
        Ok(v) => Ok((ast::constraints_of(v.0@), v.1 as int)),
        Err(stop) => Err(stop as int),
    }
}

pub open spec fn result_option_whereclause(r: Result<(Option<WhereClause>, usize), usize>) -> Parsed<Option<tree::WhereClause>> {
    match r {
        Ok(v) => Ok((option_whereclause(v.0), v.1 as int)),
        Err(stop) => Err(stop as int),
    }
}

pub open spec fn result_param(r: Result<(Param, usize), usize>) -> Parsed<tree::Param> {
    match r {
        Ok(v) => Ok((v.0.tree(), v.1 as int)),
        Err(stop) => Err(stop as int),
    }
}

pub open spec fn result_vec_param(r: Result<(Vec<Param>, usize), usize>) -> Parsed<Seq<tree::Param>> {
    match r {
        Ok(v) => Ok((ast::params_of(v.0@), v.1 as int)),
        Err(stop) => Err(stop as int),
    }
}

pub open spec fn result_pattern(r: Result<(Pattern, usize), usize>) -> Parsed<tree::Pattern> {
    match r {
        Ok(v) => Ok((v.0.tree(), v.1 as int)),
        Err(stop) => Err(stop as int),
    }
}

pub open spec fn result_vec_pattern(r: Result<(Vec<Pattern>, usize), usize>) -> Parsed<Seq<tree::Pattern>> {
    match r {
        Ok(v) => Ok((ast::patterns_of(v.0@), v.1 as int)),
        Err(stop) => Err(stop as int),
    }
}

pub open spec fn result_expr(r: Result<(Expr, usize), usize>) -> Parsed<tree::Expr> {
    match r {
        Ok(v) => Ok((v.0.tree(), v.1 as int)),
        Err(stop) => Err(stop as int),
    }
}

pub open spec fn result_vec_expr(r: Result<(Vec<Expr>, usize), usize>) -> Parsed<Seq<tree::Expr>> {
    match r {
        Ok(v) => Ok((ast::exprs_of(v.0@), v.1 as int)),
        Err(stop) => Err(stop as int),
    }
}

pub open spec fn result_vec_stringpart(r: Result<(Vec<StringPart>, usize), usize>) -> Parsed<Seq<tree::StringPart>> {
    match r {
        Ok(v) => Ok((ast::parts_of(v.0@), v.1 as int)),
        Err(stop) => Err(stop as int),
    }
}

pub open spec fn result_callarg(r: Result<(CallArg, usize), usize>) -> Parsed<tree::CallArg> {
    match r {
        Ok(v) => Ok((v.0.tree(), v.1 as int)),
        Err(stop) => Err(stop as int),
    }
}

pub open spec fn result_vec_callarg(r: Result<(Vec<CallArg>, usize), usize>) -> Parsed<Seq<tree::CallArg>> {
    match r {
        Ok(v) => Ok((ast::args_of(v.0@), v.1 as int)),
        Err(stop) => Err(stop as int),
    }
}

pub open spec fn result_mapentry(r: Result<(MapEntry, usize), usize>) -> Parsed<tree::MapEntry> {
    match r {
        Ok(v) => Ok((v.0.tree(), v.1 as int)),
        Err(stop) => Err(stop as int),
    }
}

pub open spec fn result_vec_mapentry(r: Result<(Vec<MapEntry>, usize), usize>) -> Parsed<Seq<tree::MapEntry>> {
    match r {
        Ok(v) => Ok((ast::entries_of(v.0@), v.1 as int)),
        Err(stop) => Err(stop as int),
    }
}

pub open spec fn result_fieldinit(r: Result<(FieldInit, usize), usize>) -> Parsed<tree::FieldInit> {
    match r {
        Ok(v) => Ok((v.0.tree(), v.1 as int)),
        Err(stop) => Err(stop as int),
    }
}

pub open spec fn result_vec_fieldinit(r: Result<(Vec<FieldInit>, usize), usize>) -> Parsed<Seq<tree::FieldInit>> {
    match r {
        Ok(v) => Ok((ast::inits_of(v.0@), v.1 as int)),
        Err(stop) => Err(stop as int),
    }
}

pub open spec fn result_matcharm(r: Result<(MatchArm, usize), usize>) -> Parsed<tree::MatchArm> {
    match r {
        Ok(v) => Ok((v.0.tree(), v.1 as int)),
        Err(stop) => Err(stop as int),
    }
}

pub open spec fn result_armbody(r: Result<(ArmBody, usize), usize>) -> Parsed<tree::ArmBody> {
    match r {
        Ok(v) => Ok((v.0.tree(), v.1 as int)),
        Err(stop) => Err(stop as int),
    }
}

pub open spec fn result_vec_matcharm(r: Result<(Vec<MatchArm>, usize), usize>) -> Parsed<Seq<tree::MatchArm>> {
    match r {
        Ok(v) => Ok((ast::arms_of(v.0@), v.1 as int)),
        Err(stop) => Err(stop as int),
    }
}

pub open spec fn result_block(r: Result<(Block, usize), usize>) -> Parsed<tree::Block> {
    match r {
        Ok(v) => Ok((v.0.tree(), v.1 as int)),
        Err(stop) => Err(stop as int),
    }
}

pub open spec fn result_vec_stmt(r: Result<(Vec<Stmt>, usize), usize>) -> Parsed<Seq<tree::Stmt>> {
    match r {
        Ok(v) => Ok((ast::stmts_of(v.0@), v.1 as int)),
        Err(stop) => Err(stop as int),
    }
}

pub open spec fn result_stmt(r: Result<(Stmt, usize), usize>) -> Parsed<tree::Stmt> {
    match r {
        Ok(v) => Ok((v.0.tree(), v.1 as int)),
        Err(stop) => Err(stop as int),
    }
}

pub open spec fn result_vec_target(r: Result<(Vec<Target>, usize), usize>) -> Parsed<Seq<tree::Target>> {
    match r {
        Ok(v) => Ok((ast::targets_of(v.0@), v.1 as int)),
        Err(stop) => Err(stop as int),
    }
}

pub open spec fn result_vardecl(r: Result<(VarDecl, usize), usize>) -> Parsed<tree::VarDecl> {
    match r {
        Ok(v) => Ok((v.0.tree(), v.1 as int)),
        Err(stop) => Err(stop as int),
    }
}

pub open spec fn result_constdecl(r: Result<(ConstDecl, usize), usize>) -> Parsed<tree::ConstDecl> {
    match r {
        Ok(v) => Ok((v.0.tree(), v.1 as int)),
        Err(stop) => Err(stop as int),
    }
}

pub open spec fn result_vec_string(r: Result<(Vec<String>, usize), usize>) -> Parsed<Seq<Seq<char>>> {
    match r {
        Ok(v) => Ok((ast::names_of(v.0@), v.1 as int)),
        Err(stop) => Err(stop as int),
    }
}

pub open spec fn result_importdecl(r: Result<(ImportDecl, usize), usize>) -> Parsed<tree::ImportDecl> {
    match r {
        Ok(v) => Ok((v.0.tree(), v.1 as int)),
        Err(stop) => Err(stop as int),
    }
}

pub open spec fn result_attributearg(r: Result<(AttributeArg, usize), usize>) -> Parsed<tree::AttributeArg> {
    match r {
        Ok(v) => Ok((v.0.tree(), v.1 as int)),
        Err(stop) => Err(stop as int),
    }
}

pub open spec fn result_vec_attributearg(r: Result<(Vec<AttributeArg>, usize), usize>) -> Parsed<Seq<tree::AttributeArg>> {
    match r {
        Ok(v) => Ok((ast::attribute_args_of(v.0@), v.1 as int)),
        Err(stop) => Err(stop as int),
    }
}

pub open spec fn result_vec_attribute(r: Result<(Vec<Attribute>, usize), usize>) -> Parsed<Seq<tree::Attribute>> {
    match r {
        Ok(v) => Ok((ast::attributes_of(v.0@), v.1 as int)),
        Err(stop) => Err(stop as int),
    }
}

pub open spec fn result_aliasdecl(r: Result<(AliasDecl, usize), usize>) -> Parsed<tree::AliasDecl> {
    match r {
        Ok(v) => Ok((v.0.tree(), v.1 as int)),
        Err(stop) => Err(stop as int),
    }
}

pub open spec fn result_function(r: Result<(Function, usize), usize>) -> Parsed<tree::Function> {
    match r {
        Ok(v) => Ok((v.0.tree(), v.1 as int)),
        Err(stop) => Err(stop as int),
    }
}

pub open spec fn result_visibility(r: Result<(Visibility, usize), usize>) -> Parsed<Visibility> {
    match r {
        Ok(v) => Ok((v.0, v.1 as int)),
        Err(stop) => Err(stop as int),
    }
}

pub open spec fn result_structfield(r: Result<(StructField, usize), usize>) -> Parsed<tree::StructField> {
    match r {
        Ok(v) => Ok((v.0.tree(), v.1 as int)),
        Err(stop) => Err(stop as int),
    }
}

pub open spec fn result_vec_structfield(r: Result<(Vec<StructField>, usize), usize>) -> Parsed<Seq<tree::StructField>> {
    match r {
        Ok(v) => Ok((ast::fields_of(v.0@), v.1 as int)),
        Err(stop) => Err(stop as int),
    }
}

pub open spec fn result_structdecl(r: Result<(StructDecl, usize), usize>) -> Parsed<tree::StructDecl> {
    match r {
        Ok(v) => Ok((v.0.tree(), v.1 as int)),
        Err(stop) => Err(stop as int),
    }
}

pub open spec fn result_variantdecl(r: Result<(VariantDecl, usize), usize>) -> Parsed<tree::VariantDecl> {
    match r {
        Ok(v) => Ok((v.0.tree(), v.1 as int)),
        Err(stop) => Err(stop as int),
    }
}

pub open spec fn result_option_expr(r: Result<(Option<Expr>, usize), usize>) -> Parsed<Option<tree::Expr>> {
    match r {
        Ok(v) => Ok((option_expr(v.0), v.1 as int)),
        Err(stop) => Err(stop as int),
    }
}

pub open spec fn result_vec_variantdecl(r: Result<(Vec<VariantDecl>, usize), usize>) -> Parsed<Seq<tree::VariantDecl>> {
    match r {
        Ok(v) => Ok((ast::variants_of(v.0@), v.1 as int)),
        Err(stop) => Err(stop as int),
    }
}

pub open spec fn result_enumdecl(r: Result<(EnumDecl, usize), usize>) -> Parsed<tree::EnumDecl> {
    match r {
        Ok(v) => Ok((v.0.tree(), v.1 as int)),
        Err(stop) => Err(stop as int),
    }
}

pub open spec fn result_traitmethod(r: Result<(TraitMethod, usize), usize>) -> Parsed<tree::TraitMethod> {
    match r {
        Ok(v) => Ok((v.0.tree(), v.1 as int)),
        Err(stop) => Err(stop as int),
    }
}

pub open spec fn result_vec_traitmethod(r: Result<(Vec<TraitMethod>, usize), usize>) -> Parsed<Seq<tree::TraitMethod>> {
    match r {
        Ok(v) => Ok((ast::trait_methods_of(v.0@), v.1 as int)),
        Err(stop) => Err(stop as int),
    }
}

pub open spec fn result_traitdecl(r: Result<(TraitDecl, usize), usize>) -> Parsed<tree::TraitDecl> {
    match r {
        Ok(v) => Ok((v.0.tree(), v.1 as int)),
        Err(stop) => Err(stop as int),
    }
}

pub open spec fn result_destructordecl(r: Result<(DestructorDecl, usize), usize>) -> Parsed<tree::DestructorDecl> {
    match r {
        Ok(v) => Ok((v.0.tree(), v.1 as int)),
        Err(stop) => Err(stop as int),
    }
}

pub open spec fn result_constructordecl(r: Result<(ConstructorDecl, usize), usize>) -> Parsed<tree::ConstructorDecl> {
    match r {
        Ok(v) => Ok((v.0.tree(), v.1 as int)),
        Err(stop) => Err(stop as int),
    }
}

pub open spec fn result_operatordecl(r: Result<(OperatorDecl, usize), usize>) -> Parsed<tree::OperatorDecl> {
    match r {
        Ok(v) => Ok((v.0.tree(), v.1 as int)),
        Err(stop) => Err(stop as int),
    }
}

pub open spec fn result_conversiondecl(r: Result<(ConversionDecl, usize), usize>) -> Parsed<tree::ConversionDecl> {
    match r {
        Ok(v) => Ok((v.0.tree(), v.1 as int)),
        Err(stop) => Err(stop as int),
    }
}

pub open spec fn result_propertydecl(r: Result<(PropertyDecl, usize), usize>) -> Parsed<tree::PropertyDecl> {
    match r {
        Ok(v) => Ok((v.0.tree(), v.1 as int)),
        Err(stop) => Err(stop as int),
    }
}

pub open spec fn result_setter(r: Result<(Setter, usize), usize>) -> Parsed<tree::Setter> {
    match r {
        Ok(v) => Ok((v.0.tree(), v.1 as int)),
        Err(stop) => Err(stop as int),
    }
}

pub open spec fn result_classdecl(r: Result<(ClassDecl, usize), usize>) -> Parsed<tree::ClassDecl> {
    match r {
        Ok(v) => Ok((v.0.tree(), v.1 as int)),
        Err(stop) => Err(stop as int),
    }
}

pub open spec fn result_option_type(r: Result<(Option<Type>, usize), usize>) -> Parsed<Option<tree::Type>> {
    match r {
        Ok(v) => Ok((option_type(v.0), v.1 as int)),
        Err(stop) => Err(stop as int),
    }
}

pub open spec fn result_extensionmember(r: Result<(ExtensionMember, usize), usize>) -> Parsed<tree::ExtensionMember> {
    match r {
        Ok(v) => Ok((v.0.tree(), v.1 as int)),
        Err(stop) => Err(stop as int),
    }
}

pub open spec fn result_vec_extensionmember(r: Result<(Vec<ExtensionMember>, usize), usize>) -> Parsed<Seq<tree::ExtensionMember>> {
    match r {
        Ok(v) => Ok((ast::extension_members_of(v.0@), v.1 as int)),
        Err(stop) => Err(stop as int),
    }
}

pub open spec fn result_extensiondecl(r: Result<(ExtensionDecl, usize), usize>) -> Parsed<tree::ExtensionDecl> {
    match r {
        Ok(v) => Ok((v.0.tree(), v.1 as int)),
        Err(stop) => Err(stop as int),
    }
}

pub open spec fn result_externmember(r: Result<(ExternMember, usize), usize>) -> Parsed<tree::ExternMember> {
    match r {
        Ok(v) => Ok((v.0.tree(), v.1 as int)),
        Err(stop) => Err(stop as int),
    }
}

pub open spec fn result_vec_externmember(r: Result<(Vec<ExternMember>, usize), usize>) -> Parsed<Seq<tree::ExternMember>> {
    match r {
        Ok(v) => Ok((ast::extern_members_of(v.0@), v.1 as int)),
        Err(stop) => Err(stop as int),
    }
}

pub open spec fn result_externdecl(r: Result<(ExternDecl, usize), usize>) -> Parsed<tree::ExternDecl> {
    match r {
        Ok(v) => Ok((v.0.tree(), v.1 as int)),
        Err(stop) => Err(stop as int),
    }
}

pub open spec fn result_item(r: Result<(Item, usize), usize>) -> Parsed<tree::Item> {
    match r {
        Ok(v) => Ok((v.0.tree(), v.1 as int)),
        Err(stop) => Err(stop as int),
    }
}

pub open spec fn result_vec_item(r: Result<(Vec<Item>, usize), usize>) -> Parsed<Seq<tree::Item>> {
    match r {
        Ok(v) => Ok((ast::items_of(v.0@), v.1 as int)),
        Err(stop) => Err(stop as int),
    }
}

} // verus!
