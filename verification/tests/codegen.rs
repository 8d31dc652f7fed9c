use lib::ast::{
    ArrayLiteralExpr, AssignStmt, BinaryExpr, BlockStmt, BoolLiteral, BreakStmt, CallExpr,
    CharLiteral, CompoundAssignStmt, ContinueStmt, EnumCaseDecl, EnumDecl, ErrorLiteral,
    ExprStmt, Expression, ForStmt, FunctionDecl, FunctionLiteralExpr, GroupExpr, HandleExpr,
    IdentExpr, IfStmt, IndexExpr, IntLiteral, InterfaceDecl, InterfaceMethodDecl, LetStmt,
    MapLiteralExpr, MapLiteralPair, MatchArm, MatchStmt, NilLiteral, Param, Program,
    PropagateExpr, ReceiverDecl, ReturnStmt, SelectorExpr, SliceExpr, SliceLiteralExpr,
    SpawnStmt, Statement, StringLiteral, StructDecl, StructField, StructLiteralExpr,
    StructLiteralField, TaskgroupExpr, TypeApplicationExpr, TypeParam, TypeRef, TypeRefKind,
    UnaryExpr, VarStmt,
};
use lib::checker::check_program;
use lib::codegen::{emit_llvm, Generator};
use lib::names::NameMap;
use lib::codegen::names::CodegenError;
use lib::compile::{CheckedProgram, CompileError};
use lib::codegen::names::function_symbol;
use lib::diag::Diagnostic;
use lib::lexer::{parse_char_literal, parse_int_literal, Lexer};
use lib::token::{Kind, Position, Token};

// ---------------------------------------------------------------------------
// A recursive-descent reader of Yar source, enough for the programs below.

struct Parser {
    tokens: Vec<Token>,
    at: usize,
    no_struct_literal: bool,
}

fn empty_type(pos: Position) -> TypeRef {
    TypeRef {
        kind: TypeRefKind::Named,
        name: String::new(),
        type_args: Vec::new(),
        array_len: 0,
        elem: None,
        key: None,
        value: None,
        params: Vec::new(),
        return_type: None,
        errorable: false,
        pos,
    }
}

impl Parser {
    fn peek(&self) -> &Token {
        &self.tokens[self.at.min(self.tokens.len() - 1)]
    }

    fn peek_at(&self, offset: usize) -> &Token {
        &self.tokens[(self.at + offset).min(self.tokens.len() - 1)]
    }

    fn kind(&self) -> Kind {
        self.peek().kind
    }

    fn next(&mut self) -> Token {
        let token = self.peek().clone();
        if self.at < self.tokens.len() - 1 {
            self.at += 1;
        }
        token
    }

    fn expect(&mut self, kind: Kind) -> Token {
        let token = self.next();
        assert_eq!(token.kind, kind, "expected {kind:?} at {:?}, got {:?}", token.pos, token);
        token
    }

    fn eat(&mut self, kind: Kind) -> bool {
        if self.kind() == kind {
            self.next();
            true
        } else {
            false
        }
    }

    fn previous_line(&self) -> usize {
        if self.at == 0 {
            0
        } else {
            self.tokens[self.at - 1].pos.line
        }
    }

    fn same_line(&self) -> bool {
        self.peek().pos.line == self.previous_line()
    }

    fn program(&mut self) -> Program {
        let package = self.expect(Kind::Package);
        let name = self.expect(Kind::Ident);
        let mut program = Program {
            package_pos: package.pos,
            package_name: name.text,
            imports: Vec::new(),
            structs: Vec::new(),
            interfaces: Vec::new(),
            enums: Vec::new(),
            functions: Vec::new(),
        };
        while self.kind() != Kind::Eof {
            let exported = self.eat(Kind::Pub);
            match self.kind() {
                Kind::Struct => program.structs.push(self.struct_decl(exported)),
                Kind::Interface => program.interfaces.push(self.interface_decl(exported)),
                Kind::Enum => program.enums.push(self.enum_decl(exported)),
                Kind::Fn => program.functions.push(self.function_decl(exported)),
                Kind::Error => {
                    // Error declarations carry no AST node: errors are known by use.
                    self.next();
                    self.expect(Kind::Ident);
                },
                other => panic!("unexpected declaration token {other:?} at {:?}", self.peek().pos),
            }
        }
        program
    }

    fn type_params(&mut self) -> Vec<TypeParam> {
        let mut params = Vec::new();
        if self.kind() == Kind::LBracket {
            self.next();
            while self.kind() != Kind::RBracket {
                let name = self.expect(Kind::Ident);
                params.push(TypeParam { name: name.text, pos: name.pos });
                if !self.eat(Kind::Comma) {
                    break;
                }
            }
            self.expect(Kind::RBracket);
        }
        params
    }

    fn fields(&mut self) -> Vec<StructField> {
        self.expect(Kind::LBrace);
        let mut fields = Vec::new();
        while self.kind() != Kind::RBrace {
            let exported = self.eat(Kind::Pub);
            let name = self.expect(Kind::Ident);
            let type_ref = self.type_ref();
            fields.push(StructField { exported, name: name.text, name_pos: name.pos, type_ref });
            self.eat(Kind::Comma);
        }
        self.expect(Kind::RBrace);
        fields
    }

    fn struct_decl(&mut self, exported: bool) -> StructDecl {
        let keyword = self.expect(Kind::Struct);
        let name = self.expect(Kind::Ident);
        let type_params = self.type_params();
        let fields = self.fields();
        StructDecl {
            struct_pos: keyword.pos,
            exported,
            resource: false,
            name: name.text,
            name_pos: name.pos,
            type_params,
            fields,
        }
    }

    fn params(&mut self) -> Vec<Param> {
        self.expect(Kind::LParen);
        let mut params = Vec::new();
        while self.kind() != Kind::RParen {
            let name = self.expect(Kind::Ident);
            let type_ref = self.type_ref();
            params.push(Param { name: name.text, name_pos: name.pos, type_ref });
            if !self.eat(Kind::Comma) {
                break;
            }
        }
        self.expect(Kind::RParen);
        params
    }

    fn return_type(&mut self) -> (TypeRef, bool) {
        let bang = self.eat(Kind::Bang);
        (self.type_ref(), bang)
    }

    fn interface_decl(&mut self, exported: bool) -> InterfaceDecl {
        let keyword = self.expect(Kind::Interface);
        let name = self.expect(Kind::Ident);
        self.expect(Kind::LBrace);
        let mut methods = Vec::new();
        while self.kind() != Kind::RBrace {
            let method = self.expect(Kind::Ident);
            let params = self.params();
            let (return_type, return_is_bang) = self.return_type();
            methods.push(InterfaceMethodDecl {
                name: method.text,
                name_pos: method.pos,
                params,
                return_type,
                return_is_bang,
            });
        }
        self.expect(Kind::RBrace);
        InterfaceDecl {
            interface_pos: keyword.pos,
            exported,
            name: name.text,
            name_pos: name.pos,
            methods,
        }
    }

    fn enum_decl(&mut self, exported: bool) -> EnumDecl {
        let keyword = self.expect(Kind::Enum);
        let name = self.expect(Kind::Ident);
        self.expect(Kind::LBrace);
        let mut cases = Vec::new();
        while self.kind() != Kind::RBrace {
            self.eat(Kind::Case);
            let case = self.expect(Kind::Ident);
            let fields = if self.kind() == Kind::LBrace { self.fields() } else { Vec::new() };
            cases.push(EnumCaseDecl { name: case.text, name_pos: case.pos, fields });
            self.eat(Kind::Comma);
        }
        self.expect(Kind::RBrace);
        EnumDecl { enum_pos: keyword.pos, exported, name: name.text, name_pos: name.pos, cases }
    }

    fn function_decl(&mut self, exported: bool) -> FunctionDecl {
        self.expect(Kind::Fn);
        let mut receiver = None;
        if self.kind() == Kind::LParen {
            self.next();
            let name = self.expect(Kind::Ident);
            let type_ref = self.type_ref();
            self.expect(Kind::RParen);
            receiver = Some(ReceiverDecl { name: name.text, name_pos: name.pos, type_ref });
        }
        let name = self.expect(Kind::Ident);
        let type_params = self.type_params();
        let params = self.params();
        let (return_type, return_is_bang) = self.return_type();
        let body = self.block();
        FunctionDecl {
            exported,
            host_intrinsic: false,
            name: name.text,
            name_pos: name.pos,
            type_params,
            receiver,
            params,
            return_type,
            return_is_bang,
            body,
        }
    }

    fn type_ref(&mut self) -> TypeRef {
        let start = self.next();
        let mut t = empty_type(start.pos.clone());
        match start.kind {
            Kind::Bang => {
                t.kind = TypeRefKind::Errorable;
                t.elem = Some(Box::new(self.type_ref()));
            }
            Kind::Star => {
                t.kind = TypeRefKind::Pointer;
                t.elem = Some(Box::new(self.type_ref()));
            }
            Kind::LBracket => {
                if self.eat(Kind::RBracket) {
                    t.kind = TypeRefKind::Slice;
                } else {
                    let len = self.expect(Kind::Int);
                    self.expect(Kind::RBracket);
                    t.kind = TypeRefKind::Array;
                    t.array_len = parse_int_literal(&len).unwrap();
                }
                t.elem = Some(Box::new(self.type_ref()));
            }
            Kind::MapKw => {
                self.expect(Kind::LBracket);
                t.kind = TypeRefKind::MapType;
                t.key = Some(Box::new(self.type_ref()));
                self.expect(Kind::RBracket);
                t.value = Some(Box::new(self.type_ref()));
            }
            Kind::Chan => {
                self.expect(Kind::LBracket);
                t.kind = TypeRefKind::Chan;
                t.elem = Some(Box::new(self.type_ref()));
                self.expect(Kind::RBracket);
            }
            Kind::Fn => {
                t.kind = TypeRefKind::Function;
                self.expect(Kind::LParen);
                while self.kind() != Kind::RParen {
                    t.params.push(self.type_ref());
                    if !self.eat(Kind::Comma) {
                        break;
                    }
                }
                self.expect(Kind::RParen);
                t.errorable = self.eat(Kind::Bang);
                t.return_type = Some(Box::new(self.type_ref()));
            }
            Kind::Ident | Kind::Error => {
                t.name = start.text;
                while self.kind() == Kind::Dot && self.peek_at(1).kind == Kind::Ident {
                    self.next();
                    t.name.push('.');
                    t.name.push_str(&self.next().text);
                }
                if self.kind() == Kind::LBracket && self.same_line() {
                    self.next();
                    while self.kind() != Kind::RBracket {
                        t.type_args.push(self.type_ref());
                        if !self.eat(Kind::Comma) {
                            break;
                        }
                    }
                    self.expect(Kind::RBracket);
                }
            }
            other => panic!("unexpected type token {other:?} at {:?}", start.pos),
        }
        t
    }

    /// Whether the tokens from here spell a type list closed by `]` and then
    /// followed by `(` or `{`.
    fn looks_like_type_arguments(&mut self) -> bool {
        let saved = self.at;
        let ok = self.try_type_list();
        self.at = saved;
        ok
    }

    fn try_type_list(&mut self) -> bool {
        loop {
            if !self.try_type() {
                return false;
            }
            if self.kind() == Kind::Comma {
                self.next();
                continue;
            }
            break;
        }
        if self.kind() != Kind::RBracket {
            return false;
        }
        self.next();
        matches!(self.kind(), Kind::LParen | Kind::LBrace)
    }

    fn try_type(&mut self) -> bool {
        match self.kind() {
            Kind::Bang | Kind::Star => {
                self.next();
                self.try_type()
            }
            Kind::LBracket => {
                self.next();
                if self.kind() == Kind::Int {
                    self.next();
                }
                if self.kind() != Kind::RBracket {
                    return false;
                }
                self.next();
                self.try_type()
            }
            Kind::MapKw => {
                self.next();
                if !self.eat(Kind::LBracket) || !self.try_type() || !self.eat(Kind::RBracket) {
                    return false;
                }
                self.try_type()
            }
            Kind::Chan => {
                self.next();
                self.eat(Kind::LBracket) && self.try_type() && self.eat(Kind::RBracket)
            }
            Kind::Ident => {
                let name = self.peek().text.clone();
                let first = name.chars().next().unwrap_or('a');
                let builtin = matches!(name.as_str(), "i32" | "i64" | "bool" | "str" | "void" | "error");
                if !builtin && !first.is_uppercase() {
                    return false;
                }
                self.next();
                if self.kind() == Kind::LBracket {
                    self.next();
                    loop {
                        if !self.try_type() {
                            return false;
                        }
                        if !self.eat(Kind::Comma) {
                            break;
                        }
                    }
                    return self.eat(Kind::RBracket);
                }
                true
            }
            _ => false,
        }
    }

    fn block(&mut self) -> BlockStmt {
        let lbrace = self.expect(Kind::LBrace);
        let saved = self.no_struct_literal;
        self.no_struct_literal = false;
        let mut stmts = Vec::new();
        while self.kind() != Kind::RBrace {
            stmts.push(self.statement());
        }
        self.expect(Kind::RBrace);
        self.no_struct_literal = saved;
        BlockStmt { lbrace: lbrace.pos, stmts }
    }

    fn statement(&mut self) -> Statement {
        match self.kind() {
            Kind::LBrace => Statement::Block(Box::new(self.block())),
            Kind::Var => {
                let keyword = self.next();
                let name = self.expect(Kind::Ident);
                let type_ref = self.type_ref();
                let value = if self.eat(Kind::Assign) { Some(self.expression()) } else { None };
                Statement::Var(Box::new(VarStmt {
                    var_pos: keyword.pos,
                    name: name.text,
                    name_pos: name.pos,
                    type_ref,
                    value,
                }))
            }
            Kind::If => self.if_statement(),
            Kind::For => {
                let keyword = self.next();
                let saved = self.no_struct_literal;
                self.no_struct_literal = true;
                let (init, cond, post) = if self.kind() == Kind::LBrace {
                    (None, None, None)
                } else {
                    let first = self.simple_statement();
                    if self.eat(Kind::Semicolon) {
                        let cond = self.expression();
                        self.expect(Kind::Semicolon);
                        let post = self.simple_statement();
                        (Some(first), Some(cond), Some(post))
                    } else {
                        match first {
                            Statement::Expr(expr) => (None, Some(expr.expr), None),
                            other => panic!("unexpected for clause {other:?}"),
                        }
                    }
                };
                self.no_struct_literal = saved;
                let body = self.block();
                Statement::For(Box::new(ForStmt { for_pos: keyword.pos, init, cond, post, body }))
            }
            Kind::Break => Statement::Break(BreakStmt { break_pos: self.next().pos }),
            Kind::Continue => Statement::Continue(ContinueStmt { continue_pos: self.next().pos }),
            Kind::Return => {
                let keyword = self.next();
                let value = if self.same_line() && self.kind() != Kind::RBrace {
                    Some(self.expression())
                } else {
                    None
                };
                Statement::Return(Box::new(ReturnStmt { return_pos: keyword.pos, value }))
            }
            Kind::Match => self.match_statement(),
            Kind::Spawn => {
                let keyword = self.next();
                let call = self.expression();
                Statement::Spawn(Box::new(SpawnStmt { spawn_pos: keyword.pos, call }))
            }
            _ => self.simple_statement(),
        }
    }

    fn simple_statement(&mut self) -> Statement {
        if self.kind() == Kind::Ident && self.peek_at(1).kind == Kind::ColonAssign {
            let name = self.next();
            let op = self.next();
            let value = self.expression();
            return Statement::Let(Box::new(LetStmt {
                let_pos: op.pos,
                name: name.text,
                name_pos: name.pos,
                value,
            }));
        }
        let target = self.expression();
        let compound = match self.kind() {
            Kind::PlusAssign => Some(Kind::Plus),
            Kind::MinusAssign => Some(Kind::Minus),
            Kind::StarAssign => Some(Kind::Star),
            Kind::SlashAssign => Some(Kind::Slash),
            Kind::PercentAssign => Some(Kind::Percent),
            _ => None,
        };
        if let Some(operator) = compound {
            let op = self.next();
            let value = self.expression();
            return Statement::CompoundAssign(Box::new(CompoundAssignStmt {
                target,
                operator,
                op_pos: op.pos,
                value,
            }));
        }
        if self.kind() == Kind::Assign {
            self.next();
            let value = self.expression();
            return Statement::Assign(Box::new(AssignStmt { target, value }));
        }
        Statement::Expr(Box::new(ExprStmt { expr: target }))
    }

    fn if_statement(&mut self) -> Statement {
        let keyword = self.expect(Kind::If);
        let saved = self.no_struct_literal;
        self.no_struct_literal = true;
        let cond = self.expression();
        self.no_struct_literal = saved;
        let then_block = self.block();
        let else_stmt = if self.eat(Kind::Else) {
            if self.kind() == Kind::If {
                Some(self.if_statement())
            } else {
                Some(Statement::Block(Box::new(self.block())))
            }
        } else {
            None
        };
        Statement::If(Box::new(IfStmt { if_pos: keyword.pos, cond, then_block, else_stmt }))
    }

    fn match_statement(&mut self) -> Statement {
        let keyword = self.expect(Kind::Match);
        let saved = self.no_struct_literal;
        self.no_struct_literal = true;
        let value = self.expression();
        self.no_struct_literal = saved;
        self.expect(Kind::LBrace);
        let mut arms = Vec::new();
        let mut else_body = None;
        while self.kind() != Kind::RBrace {
            if self.eat(Kind::Else) {
                else_body = Some(self.block());
                continue;
            }
            let case = self.expect(Kind::Case);
            let enum_name = self.expect(Kind::Ident);
            let mut enum_type = empty_type(enum_name.pos.clone());
            enum_type.name = enum_name.text;
            self.expect(Kind::Dot);
            let case_name = self.expect(Kind::Ident);
            let mut bind_name = String::new();
            let mut bind_name_pos = case_name.pos.clone();
            let mut bind_ignore = false;
            if self.eat(Kind::LParen) {
                let bind = self.expect(Kind::Ident);
                bind_name_pos = bind.pos.clone();
                if bind.text == "_" {
                    bind_ignore = true;
                } else {
                    bind_name = bind.text;
                }
                self.expect(Kind::RParen);
            }
            let body = self.block();
            arms.push(MatchArm {
                case_pos: case.pos,
                enum_type,
                case_name: case_name.text,
                case_name_pos: case_name.pos,
                bind_name,
                bind_name_pos,
                bind_ignore,
                body,
            });
        }
        self.expect(Kind::RBrace);
        Statement::Match(Box::new(MatchStmt { match_pos: keyword.pos, value, arms, else_body }))
    }

    fn expression(&mut self) -> Expression {
        let inner = self.binary(0);
        if self.kind() == Kind::Or {
            let or = self.next();
            self.expect(Kind::Pipe);
            let err = self.expect(Kind::Ident);
            self.expect(Kind::Pipe);
            let handler = self.block();
            return Expression::Handle(Box::new(HandleExpr {
                inner,
                or_pos: or.pos,
                err_name: err.text,
                err_pos: err.pos,
                handler,
            }));
        }
        inner
    }

    fn precedence(kind: Kind) -> Option<usize> {
        match kind {
            Kind::PipePipe => Some(1),
            Kind::AmpAmp => Some(2),
            Kind::EqualEqual
            | Kind::BangEqual
            | Kind::Less
            | Kind::LessEqual
            | Kind::Greater
            | Kind::GreaterEqual => Some(3),
            Kind::Plus | Kind::Minus => Some(4),
            Kind::Star | Kind::Slash | Kind::Percent => Some(5),
            _ => None,
        }
    }

    fn binary(&mut self, min: usize) -> Expression {
        let mut left = self.unary();
        loop {
            let Some(prec) = Self::precedence(self.kind()) else {
                break;
            };
            if prec <= min || !self.same_line() {
                break;
            }
            let op = self.next();
            let right = self.binary(prec);
            left = Expression::Binary(Box::new(BinaryExpr {
                left,
                operator: op.kind,
                op_pos: op.pos,
                right,
            }));
        }
        left
    }

    fn unary(&mut self) -> Expression {
        match self.kind() {
            Kind::Minus | Kind::Bang | Kind::Amp | Kind::Star => {
                let op = self.next();
                let inner = self.unary();
                Expression::Unary(Box::new(UnaryExpr { operator: op.kind, op_pos: op.pos, inner }))
            }
            _ => self.postfix(),
        }
    }

    fn call_args(&mut self) -> Vec<Expression> {
        self.expect(Kind::LParen);
        let saved = self.no_struct_literal;
        self.no_struct_literal = false;
        let mut args = Vec::new();
        while self.kind() != Kind::RParen {
            args.push(self.expression());
            if !self.eat(Kind::Comma) {
                break;
            }
        }
        self.expect(Kind::RParen);
        self.no_struct_literal = saved;
        args
    }

    fn postfix(&mut self) -> Expression {
        let mut expr = self.primary();
        loop {
            match self.kind() {
                Kind::Dot => {
                    let dot = self.next();
                    let name = self.expect(Kind::Ident);
                    if self.kind() == Kind::LBrace
                        && !self.no_struct_literal
                        && self.same_line()
                        && qualified_name(&expr).is_some()
                    {
                        let mut spelled = qualified_name(&expr).unwrap();
                        spelled.push('.');
                        spelled.push_str(&name.text);
                        let mut type_ref = empty_type(expr.pos());
                        type_ref.name = spelled;
                        expr = self.struct_literal(type_ref);
                        continue;
                    }
                    expr = Expression::Selector(Box::new(SelectorExpr {
                        inner: expr,
                        dot_pos: dot.pos,
                        name: name.text,
                        name_pos: name.pos,
                    }));
                }
                Kind::LParen if self.same_line() => {
                    let args = self.call_args();
                    expr = Expression::Call(Box::new(CallExpr { callee: expr, args }));
                }
                Kind::LBracket if self.same_line() => {
                    if matches!(expr, Expression::Ident(_)) {
                        let saved = self.at;
                        self.next();
                        if self.looks_like_type_arguments() {
                            let lbracket = self.tokens[saved].pos.clone();
                            let mut type_args = Vec::new();
                            while self.kind() != Kind::RBracket {
                                type_args.push(self.type_ref());
                                if !self.eat(Kind::Comma) {
                                    break;
                                }
                            }
                            self.expect(Kind::RBracket);
                            if self.kind() == Kind::LBrace {
                                let Expression::Ident(ident) = expr else { unreachable!() };
                                let mut type_ref = empty_type(ident.name_pos.clone());
                                type_ref.name = ident.name.clone();
                                type_ref.type_args = type_args;
                                expr = self.struct_literal(type_ref);
                            } else {
                                expr = Expression::TypeApplication(Box::new(TypeApplicationExpr {
                                    inner: expr,
                                    lbracket_pos: lbracket,
                                    type_args,
                                }));
                            }
                            continue;
                        }
                        self.at = saved;
                    }
                    let lbracket = self.next();
                    let saved_literal = self.no_struct_literal;
                    self.no_struct_literal = false;
                    let start = if self.kind() == Kind::Colon { None } else { Some(self.expression()) };
                    if self.kind() == Kind::Colon {
                        let colon = self.next();
                        let end = if self.kind() == Kind::RBracket { None } else { Some(self.expression()) };
                        self.expect(Kind::RBracket);
                        expr = Expression::Slice(Box::new(SliceExpr {
                            inner: expr,
                            lbracket_pos: lbracket.pos,
                            start,
                            colon_pos: colon.pos,
                            end,
                        }));
                    } else {
                        self.expect(Kind::RBracket);
                        expr = Expression::Index(Box::new(IndexExpr {
                            inner: expr,
                            lbracket_pos: lbracket.pos,
                            index: start.unwrap(),
                        }));
                    }
                    self.no_struct_literal = saved_literal;
                }
                Kind::Question => {
                    let question = self.next();
                    expr = Expression::Propagate(Box::new(PropagateExpr {
                        inner: expr,
                        question_pos: question.pos,
                    }));
                }
                Kind::LBrace
                    if !self.no_struct_literal
                        && self.same_line()
                        && matches!(&expr, Expression::Ident(ident) if ident.name.chars().next().is_some_and(char::is_uppercase)) =>
                {
                    let Expression::Ident(ident) = expr else { unreachable!() };
                    let mut type_ref = empty_type(ident.name_pos.clone());
                    type_ref.name = ident.name.clone();
                    expr = self.struct_literal(type_ref);
                }
                _ => break,
            }
        }
        expr
    }

    fn struct_literal(&mut self, type_ref: TypeRef) -> Expression {
        let lbrace = self.expect(Kind::LBrace);
        let saved = self.no_struct_literal;
        self.no_struct_literal = false;
        let mut fields = Vec::new();
        while self.kind() != Kind::RBrace {
            let name = self.expect(Kind::Ident);
            self.expect(Kind::Colon);
            let value = self.expression();
            fields.push(StructLiteralField { name: name.text, name_pos: name.pos, value });
            if !self.eat(Kind::Comma) {
                break;
            }
        }
        self.expect(Kind::RBrace);
        self.no_struct_literal = saved;
        Expression::StructLiteral(Box::new(StructLiteralExpr { type_ref, lbrace: lbrace.pos, fields }))
    }

    fn elements(&mut self) -> (Position, Vec<Expression>) {
        let lbrace = self.expect(Kind::LBrace);
        let saved = self.no_struct_literal;
        self.no_struct_literal = false;
        let mut elements = Vec::new();
        while self.kind() != Kind::RBrace {
            elements.push(self.expression());
            if !self.eat(Kind::Comma) {
                break;
            }
        }
        self.expect(Kind::RBrace);
        self.no_struct_literal = saved;
        (lbrace.pos, elements)
    }

    fn primary(&mut self) -> Expression {
        let token = self.peek().clone();
        match token.kind {
            Kind::Ident => {
                self.next();
                Expression::Ident(Box::new(IdentExpr { name: token.text, name_pos: token.pos }))
            }
            Kind::Int => {
                self.next();
                Expression::Int(IntLiteral { value: parse_int_literal(&token).unwrap(), lit_pos: token.pos })
            }
            Kind::Char => {
                self.next();
                Expression::Char(CharLiteral { value: parse_char_literal(&token), lit_pos: token.pos })
            }
            Kind::String => {
                self.next();
                Expression::String(StringLiteral { value: token.text, lit_pos: token.pos })
            }
            Kind::True | Kind::False => {
                self.next();
                Expression::Bool(BoolLiteral { value: token.kind == Kind::True, lit_pos: token.pos })
            }
            Kind::Nil => {
                self.next();
                Expression::Nil(NilLiteral { lit_pos: token.pos })
            }
            Kind::Error => {
                self.next();
                self.expect(Kind::Dot);
                let name = self.expect(Kind::Ident);
                Expression::Error(ErrorLiteral { name: name.text, err_pos: token.pos })
            }
            Kind::LParen => {
                self.next();
                let saved = self.no_struct_literal;
                self.no_struct_literal = false;
                let inner = self.expression();
                self.no_struct_literal = saved;
                self.expect(Kind::RParen);
                Expression::Group(Box::new(GroupExpr { inner }))
            }
            Kind::Fn => {
                self.next();
                let params = self.params();
                let (return_type, return_is_bang) = self.return_type();
                let body = self.block();
                Expression::FunctionLiteral(Box::new(FunctionLiteralExpr {
                    fn_pos: token.pos,
                    enclosing_function: String::new(),
                    params,
                    return_type,
                    return_is_bang,
                    body,
                }))
            }
            Kind::Taskgroup => {
                self.next();
                let result_type = self.type_ref();
                let body = self.block();
                Expression::Taskgroup(Box::new(TaskgroupExpr {
                    taskgroup_pos: token.pos,
                    result_type,
                    body,
                }))
            }
            Kind::LBracket | Kind::MapKw => {
                let type_ref = self.type_ref();
                match type_ref.kind {
                    TypeRefKind::MapType => {
                        let lbrace = self.expect(Kind::LBrace);
                        let mut pairs = Vec::new();
                        while self.kind() != Kind::RBrace {
                            let key_pos = self.peek().pos.clone();
                            let key = self.expression();
                            self.expect(Kind::Colon);
                            let value_pos = self.peek().pos.clone();
                            let value = self.expression();
                            pairs.push(MapLiteralPair { key, key_pos, value, value_pos });
                            if !self.eat(Kind::Comma) {
                                break;
                            }
                        }
                        self.expect(Kind::RBrace);
                        Expression::MapLiteral(Box::new(MapLiteralExpr { type_ref, lbrace: lbrace.pos, pairs }))
                    }
                    TypeRefKind::Array => {
                        let (lbrace, elements) = self.elements();
                        Expression::ArrayLiteral(Box::new(ArrayLiteralExpr { type_ref, lbrace, elements }))
                    }
                    _ => {
                        let (lbrace, elements) = self.elements();
                        Expression::SliceLiteral(Box::new(SliceLiteralExpr { type_ref, lbrace, elements }))
                    }
                }
            }
            other => panic!("unexpected expression token {other:?} at {:?}", token.pos),
        }
    }
}

fn qualified_name(expr: &Expression) -> Option<String> {
    match expr {
        Expression::Ident(ident) => Some(ident.name.clone()),
        _ => None,
    }
}

fn parse_ok(src: &str) -> Program {
    let mut lexer = Lexer::new_file(src, "<test>".to_string());
    let tokens = lexer.lex();
    assert_eq!(lexer.diagnostics(), Vec::<Diagnostic>::new());
    let mut parser = Parser { tokens, at: 0, no_struct_literal: false };
    parser.program()
}

fn emit_source(src: &str) -> String {
    let program = parse_ok(src);
    let (info, diagnostics) = check_program(&program);
    assert_eq!(diagnostics, Vec::<Diagnostic>::new(), "check");
    match emit_llvm(&program, &info) {
        Ok(ir) => ir,
        Err(err) => panic!("codegen: {}", err.message()),
    }
}

fn count(haystack: &str, needle: &str) -> usize {
    haystack.matches(needle).count()
}

// ---------------------------------------------------------------------------

#[test]
fn lowers_channel_equality_to_pointer_comparisons() {
    let ir = emit_source(
        r#"
package main

fn main() i32 {
    ch := chan_new[i32](1)
    same := ch == ch
    different := ch != ch
    if !same || different {
        return 1
    }
    chan_close(ch)
    return 0
}
"#,
    );

    assert!(ir.contains("icmp eq ptr"), "{ir}");
    assert!(ir.contains("icmp ne ptr"), "{ir}");
    assert!(ir.contains("call ptr @yar_chan_new(i64 4, i32 1)"), "{ir}");
    assert!(!ir.contains("chan.elem_size"), "{ir}");
}

#[test]
fn passes_checked_taskgroup_element_sizes_without_truncation() {
    let ir = emit_source(
        r#"
package main

fn work() i64 {
    return 1
}

fn main() i32 {
    values := taskgroup []i64 {
        spawn work()
    }
    if len(values) != 1 {
        return 1
    }
    return 0
}
"#,
    );

    assert!(ir.contains("call ptr @yar_taskgroup_new(i64 8)"), "{ir}");
    assert!(!ir.contains("taskgroup.elem_size"), "{ir}");
}

#[test]
fn heap_allocates_address_taken_locals_and_parameters() {
    let ir = emit_source(
        r#"
package main

error Boom
error Unexpected

struct Record {
    value i32
}

fn local_pointer() *i32 {
    value := 7
    return &value
}

fn parameter_pointer(value i32) *i32 {
    return &value
}

fn field_pointer() *i32 {
    record := Record{value: 8}
    return &record.value
}

fn element_pointer() *i32 {
    values := [2]i32{9, 10}
    return &values[1]
}

fn closure_pointer() *i32 {
    make_pointer := fn() *i32 {
        value := 11
        return &value
    }
    return make_pointer()
}

fn fail() !i32 {
    return error.Boom
}

fn error_pointer() *error {
    value := fail() or |err| {
        return &err
    }
    fallback := error.Unexpected
    if value == 0 {
        return &fallback
    }
    return &fallback
}

fn plain(value i32) i32 {
    copy := value
    return copy
}

fn main() i32 {
    return plain(*local_pointer() + *parameter_pointer(1) + *closure_pointer())
}
"#,
    );

    let function_body = |name: &str| {
        let symbol = format!("@{}(", function_symbol(name));
        let symbol_offset = ir.find(&symbol).unwrap_or_else(|| panic!("missing {symbol}"));
        let start = ir[..symbol_offset]
            .rfind("define ")
            .unwrap_or_else(|| panic!("missing definition for {symbol}"));
        let end = ir[symbol_offset..]
            .find("\n}\n")
            .map(|offset| symbol_offset + offset + 3)
            .unwrap_or_else(|| panic!("unterminated definition for {symbol}"));
        ir[start..end].to_string()
    };

    for name in ["local_pointer", "parameter_pointer", "field_pointer", "element_pointer", "closure.0"] {
        let body = function_body(name);
        assert!(body.contains("call ptr @yar_alloc"), "{name}:\n{body}");
        assert!(!body.contains("alloca i32"), "{name}:\n{body}");
    }

    let plain = function_body("plain");
    assert!(plain.contains("alloca i32"), "{plain}");
    assert!(!plain.contains("call ptr @yar_alloc"), "{plain}");

    let error_pointer = function_body("error_pointer");
    assert_eq!(count(&error_pointer, "call ptr @yar_alloc"), 2);
    assert_eq!(count(&error_pointer, "alloca i32"), 1);
}

#[test]
fn checks_pointer_dereferences_for_nil() {
    let ir = emit_source(
        r#"
package main

struct Record {
    value i32
}

fn read(pointer *i32) i32 {
    return *pointer
}

fn write(pointer *i32) void {
    *pointer = 1
}

fn read_field(pointer *Record) i32 {
    return pointer.value
}

fn write_field(pointer *Record) void {
    pointer.value = 2
}

fn field_pointer(pointer *Record) *i32 {
    return &pointer.value
}

fn read_nested(pointer **Record) i32 {
    return (*pointer).value
}

fn write_nested(pointer **Record) void {
    (*pointer).value = 3
}

fn nested_field_pointer(pointer **Record) *i32 {
    return &(*pointer).value
}

fn same_pointer(pointer *Record) *Record {
    return pointer
}

fn read_temporary(pointer *Record) i32 {
    return same_pointer(pointer).value
}

fn main() i32 {
    value := 0
    record := Record{value: 0}
    write(&value)
    write_field(&record)
    field := field_pointer(&record)
    if field == nil {
        return 1
    }
    return read(&value) + read_field(&record)
}
"#,
    );

    assert_eq!(count(&ir, "call void @yar_pointer_check(ptr "), 12, "{ir}");
}

#[test]
fn checks_fixed_array_indexes_for_bounds() {
    let ir = emit_source(
        r#"
package main

fn read(values [2]i32, index i32) i32 {
    return values[index]
}

fn read_i64(values [2]i32, index i64) i32 {
    return values[index]
}

fn write(values [2]i32, index i32) void {
    values[index] = 1
}

fn element_pointer(values [2]i32, index i32) *i32 {
    return &values[index]
}

fn main() i32 {
    values := [2]i32{1, 2}
    write(values, 0)
    return read(values, 0) + read_i64(values, 1) + *element_pointer(values, 0)
}
"#,
    );

    assert_eq!(count(&ir, "call void @yar_array_index_check(i64 "), 4, "{ir}");
}

#[test]
fn evaluates_compound_assignment_targets_once() {
    let ir = emit_source(
        r#"
package main

struct Record {
    value i32
}

fn next_index(counter *i32) i32 {
    *counter += 1
    return 0
}

fn amount(counter *i32) i32 {
    *counter += 1
    return 2
}

fn main() i32 {
    index_calls := 0
    rhs_calls := 0
    values := [1]i32{1}
    slice := []i32{1}
    records := [1]Record{Record{value: 1}}

    values[next_index(&index_calls)] += amount(&rhs_calls)
    slice[next_index(&index_calls)] += amount(&rhs_calls)
    records[next_index(&index_calls)].value += amount(&rhs_calls)
    return index_calls + rhs_calls
}
"#,
    );

    assert_eq!(count(&ir, "call i32 @yar.next_index("), 3, "{ir}");
    assert_eq!(count(&ir, "call i32 @yar.amount("), 3, "{ir}");
}

#[test]
fn checks_integer_division_and_remainder_operands() {
    let ir = emit_source(
        r#"
package main

fn arithmetic_i32(left i32, right i32) i32 {
    return left / right + left % right
}

fn arithmetic_i64(left i64, right i64) i64 {
    return left / right + left % right
}

fn main() i32 {
    return 0
}
"#,
    );

    assert_eq!(count(&ir, "call void @yar_i32_divrem_check("), 2, "{ir}");
    assert_eq!(count(&ir, "call void @yar_i64_divrem_check("), 2, "{ir}");
}

#[test]
fn checked_program_emits_a_unit_of_ir_for_a_target() {
    let program = parse_ok(
        r#"
package main

fn main() i32 {
    return 0
}
"#,
    );
    let (info, diagnostics) = check_program(&program);
    assert_eq!(diagnostics, Vec::<Diagnostic>::new());
    let checked = CheckedProgram { program, info };
    let unit = match checked.emit_llvm(Some("x86_64-unknown-linux-gnu")) {
        Ok(unit) => unit,
        Err(err) => panic!("codegen: {}", err.message()),
    };
    assert!(unit.ir.starts_with("; yar rust codegen\n"), "{}", unit.ir);
    assert!(unit.ir.contains("target triple = \"x86_64-unknown-linux-gnu\"\n"), "{}", unit.ir);
    assert!(unit.ir.contains("define i32 @yar.main()"), "{}", unit.ir);
}

#[test]
fn codegen_errors_convert_into_compile_errors() {
    let err = CodegenError::unsupported("thing");
    match CompileError::from(err) {
        CompileError::Codegen(inner) => {
            assert_eq!(inner.message(), "unsupported Rust codegen feature: thing");
        }
        CompileError::Internal(message) => panic!("unexpected internal error {message}"),
    }
}

#[test]
fn lowered_modules_open_with_the_runtime_types_and_define_main() {
    let ir = emit_source(
        r#"
package main

fn fail() !i32 {
    return error.Broken
}

fn main() !i32 {
    value := fail()?
    return value
}
"#,
    );
    let types = "%yar.str = type { ptr, i64 }\n%yar.closure = type { ptr, ptr }\n%yar.slice = type { ptr, i32, i32 }\n%yar.iface = type { ptr, ptr }\n\n";
    let header_end = ir.find(types).expect("runtime types");
    assert!(ir[..header_end].starts_with("; yar rust codegen\n"), "{ir}");
    assert!(!ir[..header_end].contains("define "), "{ir}");
    assert_eq!(count(&ir, "define i32 @main(i32 %argc, ptr %argv) {\n"), 1, "{ir}");
    assert!(ir.ends_with("  ret i32 1\n}\n"), "{ir}");
}

#[test]
fn lays_out_scalar_types_by_the_runtime_abi() {
    let program = parse_ok(
        r#"
package main

struct Pair {
    left i32
    right str
}

enum Shape {
    Dot
    Box { side i32 }
}

fn main() i32 {
    return 0
}
"#,
    );
    let (info, diagnostics) = check_program(&program);
    assert_eq!(diagnostics, Vec::<Diagnostic>::new());
    let mut g = Generator {
        info: &info,
        strings: NameMap::new(),
        literal_names: NameMap::new(),
        interface_globals: Vec::new(),
        interface_adapters: Vec::new(),
        interface_impls: NameMap::new(),
        task_wrappers: Vec::new(),
        next_string_id: 0,
        next_task_wrapper_id: 0,
    };
    let sizes = [("bool", 1, 1), ("i32", 4, 4), ("error", 4, 4), ("i64", 8, 8), ("str", 16, 8), ("[]i32", 16, 8), ("*Pair", 8, 8), ("map[str]i32", 8, 8), ("chan[i32]", 8, 8)];
    for (t, size, align) in sizes {
        assert_eq!(g.type_size(t).ok(), Some(size), "size of {t}");
        assert_eq!(g.type_align(t).ok(), Some(align), "align of {t}");
    }
    assert_eq!(g.type_size("Pair").ok(), Some(24));
    let types = [("void", "void"), ("noreturn", "void"), ("bool", "i1"), ("i32", "i32"), ("i64", "i64"), ("str", "%yar.str"), ("*i32", "ptr"), ("map[i32]i32", "ptr"), ("chan[str]", "ptr"), ("[]str", "%yar.slice")];
    for (t, llvm) in types {
        assert_eq!(g.llvm_type(t).ok().as_deref(), Some(llvm), "llvm type of {t}");
    }
    assert_eq!(g.result_struct_literal("void").ok().as_deref(), Some("{ i1, i32 }"));
    assert_eq!(g.result_struct_literal("i64").ok().as_deref(), Some("{ i1, i32, i64 }"));

    let (index, field_type) = g.struct_field("Pair", "right").ok().expect("field");
    assert_eq!((index, field_type.as_str()), (1, "str"));
    assert!(g.struct_field("Pair", "middle").is_err());
    assert!(g.struct_field("Missing", "left").is_err());

    match g.enum_case_type("Shape.Box") {
        Ok(Some((enum_name, case))) => {
            assert_eq!(enum_name, "Shape");
            assert_eq!(case.name, "Box");
            assert_eq!(case.fields.len(), 1);
        }
        _ => panic!("expected the Box case of Shape"),
    }
    assert!(matches!(g.enum_case_type("Pair"), Ok(None)));
    assert!(matches!(g.enum_case_type("Other.Box"), Ok(None)));
    assert!(g.enum_case_type("Shape.Circle").is_err());

    let first = g.string_name("hello");
    let second = g.string_name("world");
    let again = g.string_name("hello");
    assert_eq!(first, "yar.str.0");
    assert_eq!(second, "yar.str.1");
    assert_eq!(again, first);
}

#[test]
fn declares_channel_result_types_for_inferred_chan_new_values() {
    let ir = emit_source(
        r#"
package main

fn main() i32 {
    ch := chan_new[str](1)
    chan_send(ch, "value") or |_| {
        return 1
    }
    value := chan_recv(ch) or |_| {
        return 1
    }
    if value != "value" {
        return 1
    }
    return 0
}
"#,
    );

    assert!(ir.contains("%yar.result.void = type { i1, i32 }"), "{ir}");
    assert!(
        ir.contains("%yar.result.str = type { i1, i32, %yar.str }"),
        "{ir}"
    );
}
